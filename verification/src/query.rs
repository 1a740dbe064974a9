//! Abstract syntax of search queries.
//!
//! A query describes the shape of a function: an optional name and an
//! optional declaration whose arguments and return type may contain
//! wildcards. Wildcards are represented by `None` throughout.

use vstd::prelude::*;

verus! {

/// An identifier in a query.
pub type Symbol = String;

/// A parsed query: an optional name filter and an optional kind filter.
#[derive(Debug, PartialEq)]
pub struct Query {
    pub name: Option<Symbol>,
    pub kind: Option<QueryKind>,
}

/// What kind of item the query asks for.
#[derive(Debug, PartialEq)]
pub enum QueryKind {
    FunctionQuery(Function),
}

/// A function-shaped query.
#[derive(Debug, PartialEq)]
pub struct Function {
    pub decl: FnDecl,
}

/// A function declaration pattern.
///
/// `inputs` absent means "any inputs"; an explicit empty list means "zero
/// inputs". `output` absent matches any return type.
#[derive(Debug, PartialEq)]
pub struct FnDecl {
    pub inputs: Option<Vec<Argument>>,
    pub output: Option<FnRetTy>,
}

/// One argument pattern: name and type may each be a wildcard.
#[derive(Debug, PartialEq)]
pub struct Argument {
    pub ty: Option<Type>,
    pub name: Option<Symbol>,
}

/// A return-type pattern.
#[derive(Debug, PartialEq)]
pub enum FnRetTy {
    Return(Type),
    DefaultReturn,
}

/// A type expression in a query.
#[derive(Debug, PartialEq)]
pub enum Type {
    /// A named path, with optional angle-bracketed generic arguments.
    UnresolvedPath { name: Symbol, args: Option<Box<GenericArgs>> },
    /// A type parameter such as `T`. `Self` is a reserved name.
    Generic(String),
    /// A primitive type.
    Primitive(PrimitiveType),
    /// A tuple; each element may be a wildcard.
    Tuple(Vec<Option<Type>>),
    /// A slice; the element may be a wildcard.
    Slice(Option<Box<Type>>),
    /// The never type `!`.
    Never,
    /// A raw pointer `*mut T` or `*const T`.
    RawPointer { mutable: bool, type_: Box<Type> },
    /// A reference `&mut T` or `&T`.
    BorrowedRef { mutable: bool, type_: Box<Type> },
}

/// Generic arguments attached to a path.
#[derive(Debug, PartialEq)]
pub enum GenericArgs {
    /// `<A, _, B>`: ordered arguments, each possibly a wildcard.
    AngleBracketed { args: Vec<Option<GenericArg>> },
}

/// One generic argument.
#[derive(Debug, PartialEq)]
pub enum GenericArg {
    Type(Type),
}

/// The primitive types of the query language.
#[derive(Clone, Copy, Debug, PartialEq, Eq, Structural)]
pub enum PrimitiveType {
    Isize,
    I8,
    I16,
    I32,
    I64,
    I128,
    Usize,
    U8,
    U16,
    U32,
    U64,
    U128,
    F32,
    F64,
    Char,
    Bool,
    Str,
    Unit,
    Never,
}

/// Structural equality of query types: same shape, and names equal
/// character for character.
pub open spec fn qtype_eq(a: Type, b: Type) -> bool
    decreases a,
{
    match (a, b) {
        (
            Type::UnresolvedPath { name: an, args: aa },
            Type::UnresolvedPath { name: bn, args: ba },
        ) => an@ == bn@ && (match (aa, ba) {
            (Some(x), Some(y)) => qargs_eq(*x, *y),
            (None, None) => true,
            _ => false,
        }),
        (Type::Generic(x), Type::Generic(y)) => x@ == y@,
        (Type::Primitive(x), Type::Primitive(y)) => x == y,
        (Type::Tuple(xs), Type::Tuple(ys)) => xs@.len() == ys@.len() && (forall|k: int|
            0 <= k < xs@.len() ==> opt_type_eq(#[trigger] xs@[k], ys@[k])),
        (Type::Slice(x), Type::Slice(y)) => match (x, y) {
            (Some(xi), Some(yi)) => qtype_eq(*xi, *yi),
            (None, None) => true,
            _ => false,
        },
        (Type::Never, Type::Never) => true,
        (
            Type::RawPointer { mutable: am, type_: at },
            Type::RawPointer { mutable: bm, type_: bt },
        ) => am == bm && qtype_eq(*at, *bt),
        (
            Type::BorrowedRef { mutable: am, type_: at },
            Type::BorrowedRef { mutable: bm, type_: bt },
        ) => am == bm && qtype_eq(*at, *bt),
        _ => false,
    }
}

/// Structural equality of optional query types.
pub open spec fn opt_type_eq(a: Option<Type>, b: Option<Type>) -> bool
    decreases a,
{
    match (a, b) {
        (Some(x), Some(y)) => qtype_eq(x, y),
        (None, None) => true,
        _ => false,
    }
}

/// Structural equality of generic-argument lists.
pub open spec fn qargs_eq(a: GenericArgs, b: GenericArgs) -> bool
    decreases a,
{
    match (a, b) {
        (GenericArgs::AngleBracketed { args: xs }, GenericArgs::AngleBracketed { args: ys }) => {
            xs@.len() == ys@.len() && (forall|k: int|
                0 <= k < xs@.len() ==> opt_garg_eq(#[trigger] xs@[k], ys@[k]))
        },
    }
}

/// Structural equality of optional generic arguments.
pub open spec fn opt_garg_eq(a: Option<GenericArg>, b: Option<GenericArg>) -> bool
    decreases a,
{
    match (a, b) {
        (Some(GenericArg::Type(x)), Some(GenericArg::Type(y))) => qtype_eq(x, y),
        (None, None) => true,
        _ => false,
    }
}

/// Structural equality of argument patterns.
pub open spec fn arg_eq(a: Argument, b: Argument) -> bool {
    &&& match (a.name, b.name) {
        (Some(x), Some(y)) => x@ == y@,
        (None, None) => true,
        _ => false,
    }
    &&& opt_type_eq(a.ty, b.ty)
}

/// Structural equality of argument lists.
pub open spec fn args_eq(a: Seq<Argument>, b: Seq<Argument>) -> bool {
    a.len() == b.len() && (forall|k: int| 0 <= k < a.len() ==> arg_eq(#[trigger] a[k], b[k]))
}

/// Structural equality is reflexive.
pub proof fn lemma_qtype_eq_refl(a: Type)
    ensures
        qtype_eq(a, a),
    decreases a,
{
    match a {
        Type::UnresolvedPath { name, args } => {
            if let Some(x) = args {
                lemma_qargs_eq_refl(*x);
            }
        },
        Type::Tuple(xs) => {
            assert forall|k: int| 0 <= k < xs@.len() implies opt_type_eq(
                #[trigger] xs@[k],
                xs@[k],
            ) by {
                if let Some(t) = xs@[k] {
                    lemma_qtype_eq_refl(t);
                }
            }
        },
        Type::Slice(x) => {
            if let Some(xi) = x {
                lemma_qtype_eq_refl(*xi);
            }
        },
        Type::RawPointer { type_, .. } => lemma_qtype_eq_refl(*type_),
        Type::BorrowedRef { type_, .. } => lemma_qtype_eq_refl(*type_),
        _ => {},
    }
}

/// Structural equality of generic-argument lists is reflexive.
pub proof fn lemma_qargs_eq_refl(a: GenericArgs)
    ensures
        qargs_eq(a, a),
    decreases a,
{
    let GenericArgs::AngleBracketed { args: xs } = a;
    assert forall|k: int| 0 <= k < xs@.len() implies opt_garg_eq(#[trigger] xs@[k], xs@[k]) by {
        if let Some(GenericArg::Type(t)) = xs@[k] {
            lemma_qtype_eq_refl(t);
        }
    }
}

/// Structural equality is symmetric.
pub proof fn lemma_qtype_eq_sym(a: Type, b: Type)
    ensures
        qtype_eq(a, b) == qtype_eq(b, a),
    decreases a,
{
    match (a, b) {
        (
            Type::UnresolvedPath { name: an, args: aa },
            Type::UnresolvedPath { name: bn, args: ba },
        ) => {
            if let (Some(x), Some(y)) = (aa, ba) {
                lemma_qargs_eq_sym(*x, *y);
            }
        },
        (Type::Tuple(xs), Type::Tuple(ys)) => {
            if xs@.len() == ys@.len() {
                assert forall|k: int| 0 <= k < xs@.len() implies (opt_type_eq(
                    #[trigger] xs@[k],
                    ys@[k],
                ) == opt_type_eq(ys@[k], xs@[k])) by {
                    if let (Some(x), Some(y)) = (xs@[k], ys@[k]) {
                        lemma_qtype_eq_sym(x, y);
                    }
                }
            }
        },
        (Type::Slice(x), Type::Slice(y)) => {
            if let (Some(xi), Some(yi)) = (x, y) {
                lemma_qtype_eq_sym(*xi, *yi);
            }
        },
        (
            Type::RawPointer { mutable: am, type_: at },
            Type::RawPointer { mutable: bm, type_: bt },
        ) => lemma_qtype_eq_sym(*at, *bt),
        (
            Type::BorrowedRef { mutable: am, type_: at },
            Type::BorrowedRef { mutable: bm, type_: bt },
        ) => lemma_qtype_eq_sym(*at, *bt),
        _ => {},
    }
}

/// Structural equality of generic-argument lists is symmetric.
pub proof fn lemma_qargs_eq_sym(a: GenericArgs, b: GenericArgs)
    ensures
        qargs_eq(a, b) == qargs_eq(b, a),
    decreases a,
{
    let GenericArgs::AngleBracketed { args: xs } = a;
    let GenericArgs::AngleBracketed { args: ys } = b;
    if xs@.len() == ys@.len() {
        assert forall|k: int| 0 <= k < xs@.len() implies (opt_garg_eq(#[trigger] xs@[k], ys@[k])
            == opt_garg_eq(ys@[k], xs@[k])) by {
            if let (Some(GenericArg::Type(x)), Some(GenericArg::Type(y))) = (xs@[k], ys@[k]) {
                lemma_qtype_eq_sym(x, y);
            }
        }
    }
}

/// Structural equality is transitive.
pub proof fn lemma_qtype_eq_trans(a: Type, b: Type, c: Type)
    requires
        qtype_eq(a, b),
        qtype_eq(b, c),
    ensures
        qtype_eq(a, c),
    decreases a,
{
    match (a, b, c) {
        (
            Type::UnresolvedPath { name: an, args: aa },
            Type::UnresolvedPath { name: bn, args: ba },
            Type::UnresolvedPath { name: cn, args: ca },
        ) => {
            if let (Some(x), Some(y), Some(z)) = (aa, ba, ca) {
                lemma_qargs_eq_trans(*x, *y, *z);
            }
        },
        (Type::Tuple(xs), Type::Tuple(ys), Type::Tuple(zs)) => {
            assert forall|k: int| 0 <= k < xs@.len() implies opt_type_eq(
                #[trigger] xs@[k],
                zs@[k],
            ) by {
                assert(opt_type_eq(xs@[k], ys@[k]));
                assert(opt_type_eq(ys@[k], zs@[k]));
                if let (Some(x), Some(y), Some(z)) = (xs@[k], ys@[k], zs@[k]) {
                    lemma_qtype_eq_trans(x, y, z);
                }
            }
        },
        (Type::Slice(x), Type::Slice(y), Type::Slice(z)) => {
            if let (Some(xi), Some(yi), Some(zi)) = (x, y, z) {
                lemma_qtype_eq_trans(*xi, *yi, *zi);
            }
        },
        (
            Type::RawPointer { type_: at, .. },
            Type::RawPointer { type_: bt, .. },
            Type::RawPointer { type_: ct, .. },
        ) => lemma_qtype_eq_trans(*at, *bt, *ct),
        (
            Type::BorrowedRef { type_: at, .. },
            Type::BorrowedRef { type_: bt, .. },
            Type::BorrowedRef { type_: ct, .. },
        ) => lemma_qtype_eq_trans(*at, *bt, *ct),
        _ => {},
    }
}

/// Structural equality of generic-argument lists is transitive.
pub proof fn lemma_qargs_eq_trans(a: GenericArgs, b: GenericArgs, c: GenericArgs)
    requires
        qargs_eq(a, b),
        qargs_eq(b, c),
    ensures
        qargs_eq(a, c),
    decreases a,
{
    let GenericArgs::AngleBracketed { args: xs } = a;
    let GenericArgs::AngleBracketed { args: ys } = b;
    let GenericArgs::AngleBracketed { args: zs } = c;
    assert forall|k: int| 0 <= k < xs@.len() implies opt_garg_eq(#[trigger] xs@[k], zs@[k]) by {
        assert(opt_garg_eq(xs@[k], ys@[k]));
        assert(opt_garg_eq(ys@[k], zs@[k]));
        if let (
            Some(GenericArg::Type(x)),
            Some(GenericArg::Type(y)),
            Some(GenericArg::Type(z)),
        ) = (xs@[k], ys@[k], zs@[k]) {
            lemma_qtype_eq_trans(x, y, z);
        }
    }
}

/// Decides structural equality of query types.
pub fn type_eq(a: &Type, b: &Type) -> (r: bool)
    ensures
        r == qtype_eq(*a, *b),
    decreases *a,
{
    match (a, b) {
        (
            Type::UnresolvedPath { name: an, args: aa },
            Type::UnresolvedPath { name: bn, args: ba },
        ) => {
            if !crate::corpus::str_eq(an.as_str(), bn.as_str()) {
                return false;
            }
            match (aa, ba) {
                (Some(x), Some(y)) => gargs_eq_exec(x, y),
                (None, None) => true,
                _ => false,
            }
        },
        (Type::Generic(x), Type::Generic(y)) => crate::corpus::str_eq(x.as_str(), y.as_str()),
        (Type::Primitive(x), Type::Primitive(y)) => x == y,
        (Type::Tuple(xs), Type::Tuple(ys)) => {
            if xs.len() != ys.len() {
                return false;
            }
            let mut k: usize = 0;
            while k < xs.len()
                invariant
                    k <= xs.len(),
                    xs@.len() == ys@.len(),
                    forall|j: int| 0 <= j < k ==> opt_type_eq(#[trigger] xs@[j], ys@[j]),
                decreases xs.len() - k,
            {
                let ok = match (&xs[k], &ys[k]) {
                    (Some(x), Some(y)) => type_eq(x, y),
                    (None, None) => true,
                    _ => false,
                };
                proof {
                    assert(ok == opt_type_eq(xs@[k as int], ys@[k as int]));
                }
                if !ok {
                    return false;
                }
                k = k + 1;
            }
            true
        },
        (Type::Slice(x), Type::Slice(y)) => match (x, y) {
            (Some(xi), Some(yi)) => type_eq(xi, yi),
            (None, None) => true,
            _ => false,
        },
        (Type::Never, Type::Never) => true,
        (
            Type::RawPointer { mutable: am, type_: at },
            Type::RawPointer { mutable: bm, type_: bt },
        ) => *am == *bm && type_eq(at, bt),
        (
            Type::BorrowedRef { mutable: am, type_: at },
            Type::BorrowedRef { mutable: bm, type_: bt },
        ) => *am == *bm && type_eq(at, bt),
        _ => false,
    }
}

/// Decides structural equality of generic-argument lists.
pub fn gargs_eq_exec(a: &GenericArgs, b: &GenericArgs) -> (r: bool)
    ensures
        r == qargs_eq(*a, *b),
    decreases *a,
{
    let GenericArgs::AngleBracketed { args: xs } = a;
    let GenericArgs::AngleBracketed { args: ys } = b;
    if xs.len() != ys.len() {
        return false;
    }
    let mut k: usize = 0;
    while k < xs.len()
        invariant
            k <= xs.len(),
            xs@.len() == ys@.len(),
            forall|j: int| 0 <= j < k ==> opt_garg_eq(#[trigger] xs@[j], ys@[j]),
        decreases xs.len() - k,
    {
        let ok = match (&xs[k], &ys[k]) {
            (Some(GenericArg::Type(x)), Some(GenericArg::Type(y))) => type_eq(x, y),
            (None, None) => true,
            _ => false,
        };
        proof {
            assert(ok == opt_garg_eq(xs@[k as int], ys@[k as int]));
        }
        if !ok {
            return false;
        }
        k = k + 1;
    }
    true
}

impl Query {
    /// The declared argument patterns, if the query constrains them.
    pub open spec fn spec_args(&self) -> Option<Vec<Argument>> {
        match self.kind {
            Some(QueryKind::FunctionQuery(f)) => f.decl.inputs,
            None => None,
        }
    }

    /// Returns the argument patterns of the function query: `None` when the
    /// query has no kind or leaves the inputs unconstrained, and otherwise a
    /// structurally equal copy of the declared patterns.
    pub fn args(&self) -> (r: Option<Vec<Argument>>)
        ensures
            match (r, self.spec_args()) {
                (Some(ra), Some(sa)) => args_eq(ra@, sa@),
                (None, None) => true,
                _ => false,
            },
    {
        match &self.kind {
            Some(QueryKind::FunctionQuery(f)) => match &f.decl.inputs {
                Some(inputs) => Some(clone_arguments(inputs)),
                None => None,
            },
            None => None,
        }
    }
}

impl Type {
    /// The type with all pointer and reference wrappers peeled off.
    pub open spec fn spec_inner_type(self) -> Type
        decreases self,
    {
        match self {
            Type::RawPointer { type_, .. } => type_.spec_inner_type(),
            Type::BorrowedRef { type_, .. } => type_.spec_inner_type(),
            _ => self,
        }
    }

    /// Peels pointer and reference wrappers off the type.
    pub fn inner_type(&self) -> (r: &Self)
        ensures
            *r == self.spec_inner_type(),
        decreases *self,
    {
        match self {
            Type::RawPointer { type_, .. } => type_.inner_type(),
            Type::BorrowedRef { type_, .. } => type_.inner_type(),
            _ => self,
        }
    }
}

impl PrimitiveType {
    /// The surface spelling of the primitive type.
    pub open spec fn spec_as_str(self) -> Seq<char> {
        match self {
            PrimitiveType::Isize => "isize"@,
            PrimitiveType::I8 => "i8"@,
            PrimitiveType::I16 => "i16"@,
            PrimitiveType::I32 => "i32"@,
            PrimitiveType::I64 => "i64"@,
            PrimitiveType::I128 => "i128"@,
            PrimitiveType::Usize => "usize"@,
            PrimitiveType::U8 => "u8"@,
            PrimitiveType::U16 => "u16"@,
            PrimitiveType::U32 => "u32"@,
            PrimitiveType::U64 => "u64"@,
            PrimitiveType::U128 => "u128"@,
            PrimitiveType::F32 => "f32"@,
            PrimitiveType::F64 => "f64"@,
            PrimitiveType::Char => "char"@,
            PrimitiveType::Bool => "bool"@,
            PrimitiveType::Str => "str"@,
            PrimitiveType::Unit => "unit"@,
            PrimitiveType::Never => "never"@,
        }
    }

    /// The surface spelling of the primitive type.
    pub fn as_str(&self) -> (r: &str)
        ensures
            r@ == self.spec_as_str(),
    {
        match self {
            PrimitiveType::Isize => "isize",
            PrimitiveType::I8 => "i8",
            PrimitiveType::I16 => "i16",
            PrimitiveType::I32 => "i32",
            PrimitiveType::I64 => "i64",
            PrimitiveType::I128 => "i128",
            PrimitiveType::Usize => "usize",
            PrimitiveType::U8 => "u8",
            PrimitiveType::U16 => "u16",
            PrimitiveType::U32 => "u32",
            PrimitiveType::U64 => "u64",
            PrimitiveType::U128 => "u128",
            PrimitiveType::F32 => "f32",
            PrimitiveType::F64 => "f64",
            PrimitiveType::Char => "char",
            PrimitiveType::Bool => "bool",
            PrimitiveType::Str => "str",
            PrimitiveType::Unit => "unit",
            PrimitiveType::Never => "never",
        }
    }
}

/// Copies a query type; the copy is structurally equal to the original.
pub fn clone_type(t: &Type) -> (r: Type)
    ensures
        qtype_eq(r, *t),
    decreases *t,
{
    match t {
        Type::UnresolvedPath { name, args } => {
            let args2 = match args {
                Some(a) => Some(Box::new(clone_generic_args(a))),
                None => None,
            };
            Type::UnresolvedPath { name: clone_string(name), args: args2 }
        },
        Type::Generic(s) => Type::Generic(clone_string(s)),
        Type::Primitive(p) => Type::Primitive(*p),
        Type::Tuple(elems) => {
            let mut out: Vec<Option<Type>> = Vec::new();
            let mut i: usize = 0;
            while i < elems.len()
                invariant
                    i <= elems.len(),
                    out@.len() == i as nat,
                    forall|j: int| 0 <= j < i ==> opt_type_eq(#[trigger] out@[j], elems@[j]),
                decreases elems.len() - i,
            {
                let e = match &elems[i] {
                    Some(inner) => Some(clone_type(inner)),
                    None => None,
                };
                out.push(e);
                i = i + 1;
            }
            Type::Tuple(out)
        },
        Type::Slice(inner) => {
            let inner2 = match inner {
                Some(t2) => Some(Box::new(clone_type(t2))),
                None => None,
            };
            Type::Slice(inner2)
        },
        Type::Never => Type::Never,
        Type::RawPointer { mutable, type_ } => Type::RawPointer {
            mutable: *mutable,
            type_: Box::new(clone_type(type_)),
        },
        Type::BorrowedRef { mutable, type_ } => Type::BorrowedRef {
            mutable: *mutable,
            type_: Box::new(clone_type(type_)),
        },
    }
}

/// Copies the generic arguments of a path.
pub fn clone_generic_args(args: &GenericArgs) -> (r: GenericArgs)
    ensures
        qargs_eq(r, *args),
    decreases *args,
{
    match args {
        GenericArgs::AngleBracketed { args: elems } => {
            let mut out: Vec<Option<GenericArg>> = Vec::new();
            let mut i: usize = 0;
            while i < elems.len()
                invariant
                    i <= elems.len(),
                    out@.len() == i as nat,
                    forall|j: int| 0 <= j < i ==> opt_garg_eq(#[trigger] out@[j], elems@[j]),
                decreases elems.len() - i,
            {
                let e = match &elems[i] {
                    Some(GenericArg::Type(t)) => Some(GenericArg::Type(clone_type(t))),
                    None => None,
                };
                out.push(e);
                i = i + 1;
            }
            GenericArgs::AngleBracketed { args: out }
        },
    }
}

/// Copies one argument pattern.
pub fn clone_argument(a: &Argument) -> (r: Argument)
    ensures
        arg_eq(r, *a),
{
    let ty = match &a.ty {
        Some(t) => Some(clone_type(t)),
        None => None,
    };
    let name = match &a.name {
        Some(n) => Some(clone_string(n)),
        None => None,
    };
    Argument { ty, name }
}

/// Copies a list of argument patterns.
pub fn clone_arguments(args: &Vec<Argument>) -> (r: Vec<Argument>)
    ensures
        args_eq(r@, args@),
{
    let mut out: Vec<Argument> = Vec::new();
    let mut i: usize = 0;
    while i < args.len()
        invariant
            i <= args.len(),
            out@.len() == i as nat,
            forall|j: int| 0 <= j < i ==> arg_eq(#[trigger] out@[j], args@[j]),
        decreases args.len() - i,
    {
        out.push(clone_argument(&args[i]));
        i = i + 1;
    }
    out
}

/// Copies a string; the copy has the original's characters.
pub fn clone_string(s: &String) -> (r: String)
    ensures
        r == *s,
{
    s.clone()
}

} // verus!
