//! The query parser.
//!
//! A recursive-descent parser for the signature mini-language. Parsing is
//! specified twice over: a family of specification-level parsers
//! (`spec_parse_query` and the functions it builds on) defines, for every
//! input and position, whether a production matches, the exact value it
//! yields, and the position it stops at; each executable parser returns
//! precisely what its specification parser says. A canonical printer at
//! the specification level additionally ties results back to the text:
//! printing what was parsed gives back the consumed prefix, whitespace
//! aside — except for arguments that spell their name as the wildcard
//! (`_: T`), whose dropped name no printer can recover.

use vstd::prelude::*;
use vstd::seq_lib::*;
use vstd::string::StrSliceExecFns;
use vstd::string::StringExecFns;

use crate::query::{
    Argument, FnDecl, FnRetTy, Function, GenericArg, GenericArgs, PrimitiveType, Query, QueryKind,
    Symbol, Type,
};

verus! {

/// A parse failure, recording the first input position that did not match
/// any alternative of the grammar.
#[derive(Clone, Copy, Debug, PartialEq, Eq, Structural)]
pub struct ParseError {
    pub position: usize,
}

/// The whitespace characters the grammar tolerates.
pub open spec fn is_ws(c: char) -> bool {
    c == ' ' || c == '\t' || c == '\n' || c == '\r'
}

/// The text with all whitespace removed.
pub open spec fn strip_ws(s: Seq<char>) -> Seq<char> {
    s.filter(|c: char| !is_ws(c))
}

/// A character that may occur in an identifier.
pub open spec fn is_ident_char(c: char) -> bool {
    c == '_' || ('a' <= c && c <= 'z') || ('A' <= c && c <= 'Z') || ('0' <= c && c <= '9')
}

/// Stripping whitespace distributes over concatenation.
pub proof fn lemma_strip_app(a: Seq<char>, b: Seq<char>)
    ensures
        strip_ws(a + b) == strip_ws(a) + strip_ws(b),
{
    Seq::<char>::filter_distributes_over_add(a, b, |c: char| !is_ws(c));
}

/// All-whitespace text strips to nothing.
pub proof fn lemma_strip_ws_only(s: Seq<char>)
    requires
        forall|i: int| 0 <= i < s.len() ==> is_ws(#[trigger] s[i]),
    ensures
        strip_ws(s) == Seq::<char>::empty(),
{
    assert(s.all(|c: char| !(|c2: char| !is_ws(c2))(c))) by {
        reveal(Seq::all);
        assert forall|i: int| 0 <= i < s.len() implies !(#[trigger] s[i] == s[i] && !is_ws(
            s[i],
        )) || is_ws(s[i]) by {}
    }
    s.lemma_all_neg_filter_empty(|c: char| !is_ws(c));
    assert(strip_ws(s) =~= Seq::<char>::empty());
}

/// Whitespace-free text strips to itself.
pub proof fn lemma_strip_none(s: Seq<char>)
    requires
        forall|i: int| 0 <= i < s.len() ==> !is_ws(#[trigger] s[i]),
    ensures
        strip_ws(s) == s,
    decreases s.len(),
{
    reveal(Seq::filter);
    if s.len() > 0 {
        assert(forall|i: int| 0 <= i < s.drop_last().len() ==> !is_ws(#[trigger] s.drop_last()[i]));
        lemma_strip_none(s.drop_last());
        assert(strip_ws(s) =~= s.drop_last().push(s.last()));
        assert(s =~= s.drop_last().push(s.last()));
    } else {
        assert(strip_ws(s) =~= s);
    }
}

/// The canonical spelling of a type.
pub open spec fn print_type(t: Type) -> Seq<char>
    decreases t, 0int, 0int,
{
    match t {
        Type::UnresolvedPath { name, args } => name@ + (match args {
            Some(a) => print_gargs(*a),
            None => Seq::<char>::empty(),
        }),
        Type::Generic(g) => g@,
        Type::Primitive(p) => p.spec_as_str(),
        Type::Tuple(v) => "("@ + print_tuple_elems(v@, 0) + ")"@,
        Type::Slice(o) => "["@ + (match o {
            Some(t2) => print_type(*t2),
            None => "_"@,
        }) + "]"@,
        Type::Never => "!"@,
        Type::RawPointer { mutable, type_ } => (if mutable {
            "*mut "@
        } else {
            "*const "@
        }) + print_type(*type_),
        Type::BorrowedRef { mutable, type_ } => (if mutable {
            "&mut "@
        } else {
            "&"@
        }) + print_type(*type_),
    }
}

/// The canonical spelling of tuple elements from position `k` on.
pub open spec fn print_tuple_elems(xs: Seq<Option<Type>>, k: int) -> Seq<char>
    decreases xs, xs.len() - k, 0int,
{
    if k < 0 || k >= xs.len() {
        Seq::<char>::empty()
    } else {
        (if k > 0 {
            ", "@
        } else {
            Seq::<char>::empty()
        }) + (match xs[k] {
            Some(t) => print_type(t),
            None => "_"@,
        }) + print_tuple_elems(xs, k + 1)
    }
}

/// The canonical spelling of generic arguments.
pub open spec fn print_gargs(a: GenericArgs) -> Seq<char>
    decreases a, 0int, 0int,
{
    let GenericArgs::AngleBracketed { args } = a;
    "<"@ + print_garg_elems(args@, 0) + ">"@
}

/// The canonical spelling of generic-argument elements from `k` on.
pub open spec fn print_garg_elems(xs: Seq<Option<GenericArg>>, k: int) -> Seq<char>
    decreases xs, xs.len() - k, 0int,
{
    if k < 0 || k >= xs.len() {
        Seq::<char>::empty()
    } else {
        (if k > 0 {
            ", "@
        } else {
            Seq::<char>::empty()
        }) + (match xs[k] {
            Some(GenericArg::Type(t)) => print_type(t),
            None => "_"@,
        }) + print_garg_elems(xs, k + 1)
    }
}

/// The canonical spelling of one argument pattern.
pub open spec fn print_arg(a: Argument) -> Seq<char> {
    match (a.name, a.ty) {
        (Some(n), Some(t)) => n@ + ": "@ + print_type(t),
        (Some(n), None) => n@ + ": _"@,
        (None, Some(t)) => print_type(t),
        (None, None) => "_"@,
    }
}

/// The canonical spelling of argument patterns from `k` on.
pub open spec fn print_args(xs: Seq<Argument>, k: int) -> Seq<char>
    decreases xs.len() - k,
{
    if k < 0 || k >= xs.len() {
        Seq::<char>::empty()
    } else {
        (if k > 0 {
            ", "@
        } else {
            Seq::<char>::empty()
        }) + print_arg(xs[k]) + print_args(xs, k + 1)
    }
}

/// The canonical spelling of a return pattern.
pub open spec fn print_ret(r: FnRetTy) -> Seq<char> {
    match r {
        FnRetTy::Return(t) => " -> "@ + print_type(t),
        FnRetTy::DefaultReturn => Seq::<char>::empty(),
    }
}

/// The canonical spelling of a declaration pattern.
pub open spec fn print_decl(d: FnDecl) -> Seq<char> {
    "("@ + (match d.inputs {
        Some(xs) => print_args(xs@, 0),
        None => ".."@,
    }) + ")"@ + (match d.output {
        Some(r) => print_ret(r),
        None => Seq::<char>::empty(),
    })
}

/// The canonical spelling of a whole query.
pub open spec fn print_query(q: Query) -> Seq<char> {
    "fn "@ + (match q.name {
        Some(n) => n@,
        None => Seq::<char>::empty(),
    }) + (match q.kind {
        Some(QueryKind::FunctionQuery(f)) => print_decl(f.decl),
        None => Seq::<char>::empty(),
    })
}

/// A parsed type, reduced to what specifications speak about: every
/// name as its character sequence. Parsing is specified as a function
/// from input text to these shapes.
pub enum TypeDesc {
    /// A named path; each generic argument is a type or a wildcard.
    Path { name: Seq<char>, args: Option<Seq<Option<TypeDesc>>> },
    Generic(Seq<char>),
    Primitive(PrimitiveType),
    Tuple(Seq<Option<TypeDesc>>),
    Slice(Option<Box<TypeDesc>>),
    Never,
    RawPointer { mutable: bool, type_: Box<TypeDesc> },
    BorrowedRef { mutable: bool, type_: Box<TypeDesc> },
}

/// A parsed argument pattern, reduced.
pub struct ArgDesc {
    pub name: Option<Seq<char>>,
    pub ty: Option<TypeDesc>,
}

/// A parsed return pattern, reduced.
pub enum RetDesc {
    Return(TypeDesc),
    DefaultReturn,
}

/// A parsed declaration pattern, reduced.
pub struct DeclDesc {
    pub inputs: Option<Seq<ArgDesc>>,
    pub output: Option<RetDesc>,
}

/// A parsed query, reduced.
pub struct QueryDesc {
    pub name: Option<Seq<char>>,
    pub kind: Option<DeclDesc>,
}

/// The description of a type value.
pub open spec fn type_desc(t: Type) -> TypeDesc
    decreases t, 0int, 0int,
{
    match t {
        Type::UnresolvedPath { name, args } => TypeDesc::Path {
            name: name@,
            args: match args {
                Some(a) => {
                    let GenericArgs::AngleBracketed { args: xs } = *a;
                    Some(gargs_desc(xs@, 0))
                },
                None => None,
            },
        },
        Type::Generic(g) => TypeDesc::Generic(g@),
        Type::Primitive(p) => TypeDesc::Primitive(p),
        Type::Tuple(v) => TypeDesc::Tuple(tuple_elems_desc(v@, 0)),
        Type::Slice(o) => TypeDesc::Slice(
            match o {
                Some(t2) => Some(Box::new(type_desc(*t2))),
                None => None,
            },
        ),
        Type::Never => TypeDesc::Never,
        Type::RawPointer { mutable, type_ } => TypeDesc::RawPointer {
            mutable,
            type_: Box::new(type_desc(*type_)),
        },
        Type::BorrowedRef { mutable, type_ } => TypeDesc::BorrowedRef {
            mutable,
            type_: Box::new(type_desc(*type_)),
        },
    }
}

/// The descriptions of tuple elements from position `k` on.
pub open spec fn tuple_elems_desc(xs: Seq<Option<Type>>, k: int) -> Seq<Option<TypeDesc>>
    decreases xs, xs.len() - k, 0int,
{
    if k < 0 || k >= xs.len() {
        Seq::<Option<TypeDesc>>::empty()
    } else {
        seq![
            match xs[k] {
                Some(t) => Some(type_desc(t)),
                None => None,
            },
        ] + tuple_elems_desc(xs, k + 1)
    }
}

/// The descriptions of generic-argument elements from position `k` on.
pub open spec fn gargs_desc(xs: Seq<Option<GenericArg>>, k: int) -> Seq<Option<TypeDesc>>
    decreases xs, xs.len() - k, 0int,
{
    if k < 0 || k >= xs.len() {
        Seq::<Option<TypeDesc>>::empty()
    } else {
        seq![
            match xs[k] {
                Some(GenericArg::Type(t)) => Some(type_desc(t)),
                None => None,
            },
        ] + gargs_desc(xs, k + 1)
    }
}

/// The description of an argument pattern.
pub open spec fn arg_desc(a: Argument) -> ArgDesc {
    ArgDesc {
        name: match a.name {
            Some(n) => Some(n@),
            None => None,
        },
        ty: match a.ty {
            Some(t) => Some(type_desc(t)),
            None => None,
        },
    }
}

/// The descriptions of an argument list.
pub open spec fn args_desc(xs: Seq<Argument>) -> Seq<ArgDesc> {
    xs.map_values(|a: Argument| arg_desc(a))
}

/// The description of a return pattern.
pub open spec fn ret_desc(r: FnRetTy) -> RetDesc {
    match r {
        FnRetTy::Return(t) => RetDesc::Return(type_desc(t)),
        FnRetTy::DefaultReturn => RetDesc::DefaultReturn,
    }
}

/// The description of a declaration pattern.
pub open spec fn decl_desc(d: FnDecl) -> DeclDesc {
    DeclDesc {
        inputs: match d.inputs {
            Some(xs) => Some(args_desc(xs@)),
            None => None,
        },
        output: match d.output {
            Some(r) => Some(ret_desc(r)),
            None => None,
        },
    }
}

/// The description of a query.
pub open spec fn query_desc(q: Query) -> QueryDesc {
    QueryDesc {
        name: match q.name {
            Some(n) => Some(n@),
            None => None,
        },
        kind: match q.kind {
            Some(QueryKind::FunctionQuery(f)) => Some(decl_desc(f.decl)),
            None => None,
        },
    }
}

/// The first position at or after `pos` that holds no whitespace.
pub open spec fn spec_skip_ws(s: Seq<char>, pos: int) -> int
    decreases s.len() - pos,
{
    if 0 <= pos < s.len() && is_ws(s[pos]) {
        spec_skip_ws(s, pos + 1)
    } else {
        pos
    }
}

/// Where the literal `lit` ends when it sits at `pos`, if it does.
pub open spec fn spec_lit(s: Seq<char>, pos: int, lit: Seq<char>) -> Option<int> {
    if 0 <= pos && pos + lit.len() <= s.len() && s.subrange(pos, pos + lit.len()) == lit {
        Some(pos + lit.len())
    } else {
        None
    }
}

/// The end of the identifier-character run starting at `pos`.
pub open spec fn spec_ident_end(s: Seq<char>, pos: int) -> int
    decreases s.len() - pos,
{
    if 0 <= pos < s.len() && is_ident_char(s[pos]) {
        spec_ident_end(s, pos + 1)
    } else {
        pos
    }
}

/// The end of the uppercase run starting at `pos`.
pub open spec fn spec_upper_end(s: Seq<char>, pos: int) -> int
    decreases s.len() - pos,
{
    if 0 <= pos < s.len() && 'A' <= s[pos] && s[pos] <= 'Z' {
        spec_upper_end(s, pos + 1)
    } else {
        pos
    }
}

/// What parsing an identifier at `pos` yields: its characters and its end.
pub open spec fn spec_parse_symbol(s: Seq<char>, pos: int) -> Option<(Seq<char>, int)> {
    if 0 <= pos < s.len() && (s[pos] == '_' || ('a' <= s[pos] && s[pos] <= 'z') || ('A' <= s[pos]
        && s[pos] <= 'Z')) {
        let end = spec_ident_end(s, pos + 1);
        Some((s.subrange(pos, end), end))
    } else {
        None
    }
}

/// What parsing a primitive name at `pos` yields, trying each spelling in
/// the grammar's order.
pub open spec fn spec_parse_primitive(s: Seq<char>, pos: int) -> Option<(PrimitiveType, int)> {
    if spec_lit(s, pos, "isize"@) is Some {
        Some((PrimitiveType::Isize, spec_lit(s, pos, "isize"@)->0))
    } else if spec_lit(s, pos, "i8"@) is Some {
        Some((PrimitiveType::I8, spec_lit(s, pos, "i8"@)->0))
    } else if spec_lit(s, pos, "i16"@) is Some {
        Some((PrimitiveType::I16, spec_lit(s, pos, "i16"@)->0))
    } else if spec_lit(s, pos, "i32"@) is Some {
        Some((PrimitiveType::I32, spec_lit(s, pos, "i32"@)->0))
    } else if spec_lit(s, pos, "i64"@) is Some {
        Some((PrimitiveType::I64, spec_lit(s, pos, "i64"@)->0))
    } else if spec_lit(s, pos, "i128"@) is Some {
        Some((PrimitiveType::I128, spec_lit(s, pos, "i128"@)->0))
    } else if spec_lit(s, pos, "usize"@) is Some {
        Some((PrimitiveType::Usize, spec_lit(s, pos, "usize"@)->0))
    } else if spec_lit(s, pos, "u8"@) is Some {
        Some((PrimitiveType::U8, spec_lit(s, pos, "u8"@)->0))
    } else if spec_lit(s, pos, "u16"@) is Some {
        Some((PrimitiveType::U16, spec_lit(s, pos, "u16"@)->0))
    } else if spec_lit(s, pos, "u32"@) is Some {
        Some((PrimitiveType::U32, spec_lit(s, pos, "u32"@)->0))
    } else if spec_lit(s, pos, "u64"@) is Some {
        Some((PrimitiveType::U64, spec_lit(s, pos, "u64"@)->0))
    } else if spec_lit(s, pos, "u128"@) is Some {
        Some((PrimitiveType::U128, spec_lit(s, pos, "u128"@)->0))
    } else if spec_lit(s, pos, "f32"@) is Some {
        Some((PrimitiveType::F32, spec_lit(s, pos, "f32"@)->0))
    } else if spec_lit(s, pos, "f64"@) is Some {
        Some((PrimitiveType::F64, spec_lit(s, pos, "f64"@)->0))
    } else if spec_lit(s, pos, "char"@) is Some {
        Some((PrimitiveType::Char, spec_lit(s, pos, "char"@)->0))
    } else if spec_lit(s, pos, "bool"@) is Some {
        Some((PrimitiveType::Bool, spec_lit(s, pos, "bool"@)->0))
    } else if spec_lit(s, pos, "str"@) is Some {
        Some((PrimitiveType::Str, spec_lit(s, pos, "str"@)->0))
    } else {
        None
    }
}

/// What parsing a generic type parameter at `pos` yields: an uppercase
/// run not followed by a lowercase letter.
pub open spec fn spec_parse_generic(s: Seq<char>, pos: int) -> Option<(TypeDesc, int)> {
    let end = spec_upper_end(s, pos);
    if end == pos {
        None
    } else if end < s.len() && 'a' <= s[end] && s[end] <= 'z' {
        None
    } else {
        Some((TypeDesc::Generic(s.subrange(pos, end)), end))
    }
}

/// What parsing one tuple element at `pos` yields: a wildcard or a type.
pub open spec fn spec_tuple_elem(s: Seq<char>, pos: int) -> Option<(Option<TypeDesc>, int)>
    decreases s.len() - pos, 10int,
{
    if 0 <= pos < s.len() && s[pos] == '_' {
        Some((None, pos + 1))
    } else {
        match spec_parse_type(s, pos) {
            Some((t, e)) => Some((Some(t), e)),
            None => None,
        }
    }
}

/// What parsing one generic-argument element at `pos` yields.
pub open spec fn spec_garg_elem(s: Seq<char>, pos: int) -> Option<(Option<TypeDesc>, int)>
    decreases s.len() - pos, 10int,
{
    if 0 <= pos < s.len() && s[pos] == '_' {
        Some((None, pos + 1))
    } else {
        match spec_parse_type(s, pos) {
            Some((t, e)) => Some((Some(t), e)),
            None => None,
        }
    }
}

/// What parsing a type at `pos` yields: leading whitespace, then the
/// first alternative of the grammar that matches.
///
/// The early bail-outs on non-advancing positions can never fire — every
/// sub-parse moves forward — but make termination evident.
pub open spec fn spec_parse_type(s: Seq<char>, pos: int) -> Option<(TypeDesc, int)>
    decreases s.len() - pos, 9int,
{
    let w = spec_skip_ws(s, pos);
    if w < pos || w > s.len() {
        None
    } else if spec_parse_primitive(s, w) is Some {
        let p = spec_parse_primitive(s, w)->0;
        Some((TypeDesc::Primitive(p.0), p.1))
    } else if spec_parse_generic(s, w) is Some {
        spec_parse_generic(s, w)
    } else if spec_parse_path(s, w) is Some {
        spec_parse_path(s, w)
    } else if spec_parse_tuple(s, w) is Some {
        spec_parse_tuple(s, w)
    } else if spec_parse_slice(s, w) is Some {
        spec_parse_slice(s, w)
    } else if w < s.len() && s[w] == '!' {
        Some((TypeDesc::Never, w + 1))
    } else if spec_parse_ptr(s, w) is Some {
        spec_parse_ptr(s, w)
    } else {
        spec_parse_ref(s, w)
    }
}

/// What parsing a named path at `pos` yields: an identifier, then
/// optional generic arguments.
pub open spec fn spec_parse_path(s: Seq<char>, pos: int) -> Option<(TypeDesc, int)>
    decreases s.len() - pos, 8int,
{
    match spec_parse_symbol(s, pos) {
        None => None,
        Some((sym, e1)) => if e1 <= pos || e1 > s.len() {
            None
        } else {
            match spec_parse_gargs(s, e1) {
                Some((args, e2)) => Some((TypeDesc::Path { name: sym, args: Some(args) }, e2)),
                None => Some((TypeDesc::Path { name: sym, args: None }, e1)),
            }
        },
    }
}

/// What parsing angle-bracketed generic arguments at `pos` yields.
pub open spec fn spec_parse_gargs(s: Seq<char>, pos: int) -> Option<(Seq<Option<TypeDesc>>, int)>
    decreases s.len() - pos, 7int,
{
    if !(0 <= pos < s.len() && s[pos] == '<') {
        None
    } else {
        let start = pos + 1;
        let e0 = spec_skip_ws(s, start);
        let head = if e0 < start || e0 > s.len() {
            (Seq::<Option<TypeDesc>>::empty(), start)
        } else {
            match spec_garg_elem(s, e0) {
                Some((el, e1)) => if e1 <= pos || e1 > s.len() {
                    (Seq::<Option<TypeDesc>>::empty(), start)
                } else {
                    let rest = spec_gargs_more(s, e1);
                    (seq![el] + rest.0, rest.1)
                },
                None => (Seq::<Option<TypeDesc>>::empty(), start),
            }
        };
        if 0 <= head.1 < s.len() && s[head.1] == '>' {
            Some((head.0, head.1 + 1))
        } else {
            None
        }
    }
}

/// Further generic-argument elements after a separator, from `cur` on.
pub open spec fn spec_gargs_more(s: Seq<char>, cur: int) -> (Seq<Option<TypeDesc>>, int)
    decreases s.len() - cur, 1int,
{
    let a = spec_skip_ws(s, cur);
    if a < cur || a > s.len() {
        (Seq::<Option<TypeDesc>>::empty(), cur)
    } else if a < s.len() && s[a] == ',' {
        let b = spec_skip_ws(s, a + 1);
        if b <= cur || b > s.len() {
            (Seq::<Option<TypeDesc>>::empty(), cur)
        } else {
            match spec_garg_elem(s, b) {
                Some((el, e2)) => if e2 <= cur || e2 > s.len() {
                    (Seq::<Option<TypeDesc>>::empty(), cur)
                } else {
                    let rest = spec_gargs_more(s, e2);
                    (seq![el] + rest.0, rest.1)
                },
                None => (Seq::<Option<TypeDesc>>::empty(), cur),
            }
        }
    } else {
        (Seq::<Option<TypeDesc>>::empty(), cur)
    }
}

/// What parsing a tuple type at `pos` yields.
pub open spec fn spec_parse_tuple(s: Seq<char>, pos: int) -> Option<(TypeDesc, int)>
    decreases s.len() - pos, 6int,
{
    if !(0 <= pos < s.len() && s[pos] == '(') {
        None
    } else {
        let start = pos + 1;
        let e0 = spec_skip_ws(s, start);
        let head = if e0 < start || e0 > s.len() {
            (Seq::<Option<TypeDesc>>::empty(), start)
        } else {
            match spec_tuple_elem(s, e0) {
                Some((el, e1)) => if e1 <= pos || e1 > s.len() {
                    (Seq::<Option<TypeDesc>>::empty(), start)
                } else {
                    let rest = spec_tuple_more(s, e1);
                    (seq![el] + rest.0, rest.1)
                },
                None => (Seq::<Option<TypeDesc>>::empty(), start),
            }
        };
        if 0 <= head.1 < s.len() && s[head.1] == ')' {
            Some((TypeDesc::Tuple(head.0), head.1 + 1))
        } else {
            None
        }
    }
}

/// Further tuple elements after a separator, from `cur` on.
pub open spec fn spec_tuple_more(s: Seq<char>, cur: int) -> (Seq<Option<TypeDesc>>, int)
    decreases s.len() - cur, 1int,
{
    let a = spec_skip_ws(s, cur);
    if a < cur || a > s.len() {
        (Seq::<Option<TypeDesc>>::empty(), cur)
    } else if a < s.len() && s[a] == ',' {
        let b = spec_skip_ws(s, a + 1);
        if b <= cur || b > s.len() {
            (Seq::<Option<TypeDesc>>::empty(), cur)
        } else {
            match spec_tuple_elem(s, b) {
                Some((el, e2)) => if e2 <= cur || e2 > s.len() {
                    (Seq::<Option<TypeDesc>>::empty(), cur)
                } else {
                    let rest = spec_tuple_more(s, e2);
                    (seq![el] + rest.0, rest.1)
                },
                None => (Seq::<Option<TypeDesc>>::empty(), cur),
            }
        }
    } else {
        (Seq::<Option<TypeDesc>>::empty(), cur)
    }
}

/// What parsing a slice type at `pos` yields.
pub open spec fn spec_parse_slice(s: Seq<char>, pos: int) -> Option<(TypeDesc, int)>
    decreases s.len() - pos, 5int,
{
    if !(0 <= pos < s.len() && s[pos] == '[') {
        None
    } else {
        let inner_start = pos + 1;
        let io = if inner_start < s.len() && s[inner_start] == '_' {
            Some((TypeDesc::Slice(None), inner_start + 1))
        } else {
            match spec_parse_type(s, inner_start) {
                Some((t, e)) => Some((TypeDesc::Slice(Some(Box::new(t))), e)),
                None => None,
            }
        };
        match io {
            None => None,
            Some((d, e1)) => if 0 <= e1 < s.len() && s[e1] == ']' {
                Some((d, e1 + 1))
            } else {
                None
            },
        }
    }
}

/// What parsing a raw-pointer type at `pos` yields.
pub open spec fn spec_parse_ptr(s: Seq<char>, pos: int) -> Option<(TypeDesc, int)>
    decreases s.len() - pos, 4int,
{
    let head = if spec_lit(s, pos, "*mut"@) is Some {
        Some((true, spec_lit(s, pos, "*mut"@)->0))
    } else if spec_lit(s, pos, "*const"@) is Some {
        Some((false, spec_lit(s, pos, "*const"@)->0))
    } else {
        None
    };
    match head {
        None => None,
        Some((mutable, e1)) => if e1 <= pos || e1 > s.len() {
            None
        } else {
            match spec_parse_type(s, e1) {
                Some((t, e2)) => Some((TypeDesc::RawPointer { mutable, type_: Box::new(t) }, e2)),
                None => None,
            }
        },
    }
}

/// What parsing a reference type at `pos` yields.
pub open spec fn spec_parse_ref(s: Seq<char>, pos: int) -> Option<(TypeDesc, int)>
    decreases s.len() - pos, 3int,
{
    let head = if spec_lit(s, pos, "&mut"@) is Some {
        Some((true, spec_lit(s, pos, "&mut"@)->0))
    } else if spec_lit(s, pos, "&"@) is Some {
        Some((false, spec_lit(s, pos, "&"@)->0))
    } else {
        None
    };
    match head {
        None => None,
        Some((mutable, e1)) => if e1 <= pos || e1 > s.len() {
            None
        } else {
            match spec_parse_type(s, e1) {
                Some((t, e2)) => Some((TypeDesc::BorrowedRef { mutable, type_: Box::new(t) }, e2)),
                None => None,
            }
        },
    }
}

/// Describing one more element appends its description.
proof fn lemma_tuple_desc_push(xs: Seq<Option<Type>>, e: Option<Type>, k: int)
    requires
        0 <= k <= xs.len(),
    ensures
        tuple_elems_desc(xs.push(e), k) == tuple_elems_desc(xs, k) + seq![
            match e {
                Some(t) => Some(type_desc(t)),
                None => None,
            },
        ],
    decreases xs.len() - k,
{
    let tail = seq![
        match e {
            Some(t) => Some(type_desc(t)),
            None => None,
        },
    ];
    if k == xs.len() {
        assert(xs.push(e)[k] == e);
        assert(tuple_elems_desc(xs.push(e), k + 1) =~= Seq::<Option<TypeDesc>>::empty());
        assert(tuple_elems_desc(xs.push(e), k) =~= tuple_elems_desc(xs, k) + tail);
    } else {
        lemma_tuple_desc_push(xs, e, k + 1);
        assert(xs.push(e)[k] == xs[k]);
        assert(tuple_elems_desc(xs.push(e), k) =~= tuple_elems_desc(xs, k) + tail);
    }
}

/// The same, for generic-argument elements.
proof fn lemma_gargs_desc_push(xs: Seq<Option<GenericArg>>, e: Option<GenericArg>, k: int)
    requires
        0 <= k <= xs.len(),
    ensures
        gargs_desc(xs.push(e), k) == gargs_desc(xs, k) + seq![
            match e {
                Some(GenericArg::Type(t)) => Some(type_desc(t)),
                None => None,
            },
        ],
    decreases xs.len() - k,
{
    let tail = seq![
        match e {
            Some(GenericArg::Type(t)) => Some(type_desc(t)),
            None => None,
        },
    ];
    if k == xs.len() {
        assert(xs.push(e)[k] == e);
        assert(gargs_desc(xs.push(e), k + 1) =~= Seq::<Option<TypeDesc>>::empty());
        assert(gargs_desc(xs.push(e), k) =~= gargs_desc(xs, k) + tail);
    } else {
        lemma_gargs_desc_push(xs, e, k + 1);
        assert(xs.push(e)[k] == xs[k]);
        assert(gargs_desc(xs.push(e), k) =~= gargs_desc(xs, k) + tail);
    }
}

/// The anonymous-name marker: an argument written with the wildcard in
/// name position, `_:`. Such an argument parses with no recorded name,
/// which the canonical printer cannot spell back.
pub open spec fn anon_named_at(s: Seq<char>, pos: int) -> bool {
    0 <= pos && pos + 1 < s.len() && s[pos] == '_' && s[pos + 1] == ':'
}

/// No anonymous-name marker anywhere in `[from, to)`.
pub open spec fn no_anon_named(s: Seq<char>, from: int, to: int) -> bool {
    forall|i: int| from <= i < to && i + 1 < s.len() ==> !(#[trigger] s[i] == '_' && s[i + 1]
        == ':')
}

/// What parsing a named argument at `pos` yields: an identifier (the
/// wildcard identifier leaves the name unrecorded), a colon, then a type
/// or a type wildcard.
pub open spec fn spec_parse_argument(s: Seq<char>, pos: int) -> Option<(ArgDesc, int)> {
    match spec_parse_symbol(s, pos) {
        None => None,
        Some((sym, p1)) => if !(0 <= p1 < s.len() && s[p1] == ':') {
            None
        } else {
            let name = if sym == "_"@ {
                Option::<Seq<char>>::None
            } else {
                Some(sym)
            };
            let p3 = spec_skip_ws(s, p1 + 1);
            if p3 < s.len() && s[p3] == '_' {
                Some((ArgDesc { name, ty: None }, p3 + 1))
            } else {
                match spec_parse_type(s, p3) {
                    Some((t, e)) => Some((ArgDesc { name, ty: Some(t) }, e)),
                    None => None,
                }
            }
        },
    }
}

/// What parsing one argument-list element at `pos` yields: a named
/// argument, a bare wildcard, or a positional type.
pub open spec fn spec_arg_elem(s: Seq<char>, pos: int) -> Option<(ArgDesc, int)> {
    if spec_parse_argument(s, pos) is Some {
        spec_parse_argument(s, pos)
    } else if 0 <= pos < s.len() && s[pos] == '_' {
        Some((ArgDesc { name: None, ty: None }, pos + 1))
    } else {
        match spec_parse_type(s, pos) {
            Some((t, e)) => Some((ArgDesc { name: None, ty: Some(t) }, e)),
            None => None,
        }
    }
}

/// Further argument-list elements after a separator, from `cur` on.
pub open spec fn spec_args_more(s: Seq<char>, cur: int) -> (Seq<ArgDesc>, int)
    decreases s.len() - cur,
{
    let a = spec_skip_ws(s, cur);
    if a < cur || a > s.len() {
        (Seq::<ArgDesc>::empty(), cur)
    } else if a < s.len() && s[a] == ',' {
        let b = spec_skip_ws(s, a + 1);
        if b <= cur || b > s.len() {
            (Seq::<ArgDesc>::empty(), cur)
        } else {
            match spec_arg_elem(s, b) {
                Some((el, e2)) => if e2 <= cur || e2 > s.len() {
                    (Seq::<ArgDesc>::empty(), cur)
                } else {
                    let rest = spec_args_more(s, e2);
                    (seq![el] + rest.0, rest.1)
                },
                None => (Seq::<ArgDesc>::empty(), cur),
            }
        }
    } else {
        (Seq::<ArgDesc>::empty(), cur)
    }
}

/// What parsing a comma-separated argument list at `pos` yields; an empty
/// list consumes nothing.
pub open spec fn spec_parse_arguments(s: Seq<char>, pos: int) -> (Seq<ArgDesc>, int) {
    let e0 = spec_skip_ws(s, pos);
    if e0 < pos || e0 > s.len() {
        (Seq::<ArgDesc>::empty(), pos)
    } else {
        match spec_arg_elem(s, e0) {
            Some((el, e1)) => if e1 <= pos || e1 > s.len() {
                (Seq::<ArgDesc>::empty(), pos)
            } else {
                let rest = spec_args_more(s, e1);
                (seq![el] + rest.0, rest.1)
            },
            None => (Seq::<ArgDesc>::empty(), pos),
        }
    }
}

/// What parsing a return clause at `pos` yields: an arrow and a type, or
/// the default return at the end of the input.
pub open spec fn spec_parse_output(s: Seq<char>, pos: int) -> Option<(RetDesc, int)> {
    let w = spec_skip_ws(s, pos);
    match spec_lit(s, w, "->"@) {
        Some(e1) => match spec_parse_type(s, e1) {
            Some((t, e2)) => Some((RetDesc::Return(t), e2)),
            None => None,
        },
        None => if w == s.len() {
            Some((RetDesc::DefaultReturn, w))
        } else {
            None
        },
    }
}

/// What parsing a declaration at `pos` yields: parenthesized inputs (or
/// the any-inputs sentinel `..`), then an optional return clause.
pub open spec fn spec_parse_decl(s: Seq<char>, pos: int) -> Option<(DeclDesc, int)> {
    if !(0 <= pos < s.len() && s[pos] == '(') {
        None
    } else {
        let start = pos + 1;
        let head = match spec_lit(s, start, ".."@) {
            Some(e1) => (Option::<Seq<ArgDesc>>::None, e1),
            None => {
                let a = spec_parse_arguments(s, start);
                (Some(a.0), a.1)
            },
        };
        if !(0 <= head.1 < s.len() && s[head.1] == ')') {
            None
        } else {
            let after = head.1 + 1;
            match spec_parse_output(s, after) {
                Some((o, e2)) => Some((DeclDesc { inputs: head.0, output: Some(o) }, e2)),
                None => Some((DeclDesc { inputs: head.0, output: None }, after)),
            }
        }
    }
}

/// What parsing a whole query at `pos` yields: `fn`, whitespace, an
/// optional name, and an optional declaration.
pub open spec fn spec_parse_fn_query(s: Seq<char>, pos: int) -> Option<(QueryDesc, int)> {
    match spec_lit(s, pos, "fn"@) {
        None => None,
        Some(e_fn) => if !(e_fn < s.len() && is_ws(s[e_fn])) {
            None
        } else {
            let w = spec_skip_ws(s, e_fn);
            let head = match spec_parse_symbol(s, w) {
                Some((sym, e)) => (Some(sym), e),
                None => (Option::<Seq<char>>::None, w),
            };
            match spec_parse_decl(s, head.1) {
                Some((d, e2)) => Some((QueryDesc { name: head.0, kind: Some(d) }, e2)),
                None => Some((QueryDesc { name: head.0, kind: None }, head.1)),
            }
        },
    }
}

/// What parsing a query string yields, from its beginning.
pub open spec fn spec_parse_query(s: Seq<char>) -> Option<(QueryDesc, int)> {
    spec_parse_fn_query(s, 0)
}

/// Describing one more argument appends its description.
proof fn lemma_args_desc_push(xs: Seq<Argument>, a: Argument)
    ensures
        args_desc(xs.push(a)) == args_desc(xs).push(arg_desc(a)),
{
    assert(args_desc(xs.push(a)) =~= args_desc(xs).push(arg_desc(a)));
}

/// Whether the character is whitespace.
fn ws_char(c: char) -> (r: bool)
    ensures
        r == is_ws(c),
{
    c == ' ' || c == '\t' || c == '\n' || c == '\r'
}

/// Whether the character may occur in an identifier.
fn ident_char(c: char) -> (r: bool)
    ensures
        r == is_ident_char(c),
{
    c == '_' || ('a' <= c && c <= 'z') || ('A' <= c && c <= 'Z') || ('0' <= c && c <= '9')
}

/// Skips whitespace, returning the first position that holds none.
fn skip_ws(s: &str, pos: usize) -> (r: usize)
    requires
        pos <= s@.len(),
    ensures
        pos <= r <= s@.len(),
        r == spec_skip_ws(s@, pos as int),
        forall|m: int| pos <= m < r ==> is_ws(#[trigger] s@[m]),
        r < s@.len() ==> !is_ws(s@[r as int]),
        strip_ws(s@.subrange(pos as int, r as int)) == Seq::<char>::empty(),
{
    let n = s.unicode_len();
    let mut i = pos;
    while i < n && ws_char(s.get_char(i))
        invariant
            pos <= i <= n,
            n == s@.len(),
            spec_skip_ws(s@, i as int) == spec_skip_ws(s@, pos as int),
            forall|m: int| pos <= m < i ==> is_ws(#[trigger] s@[m]),
        decreases n - i,
    {
        i = i + 1;
    }
    proof {
        lemma_strip_ws_only(s@.subrange(pos as int, i as int));
    }
    i
}

/// Matches the literal at `pos`: `Some` exactly when it is there, with
/// the position just past it.
fn match_lit(s: &str, pos: usize, lit: &str) -> (r: Option<usize>)
    requires
        pos <= s@.len(),
    ensures
        match r {
            Some(end) => pos + lit@.len() == end && end <= s@.len() && s@.subrange(
                pos as int,
                end as int,
            ) == lit@ && spec_lit(s@, pos as int, lit@) == Some(end as int),
            None => !(pos + lit@.len() <= s@.len() && s@.subrange(
                pos as int,
                pos + lit@.len() as int,
            ) == lit@) && spec_lit(s@, pos as int, lit@) is None,
        },
{
    let n = s.unicode_len();
    let m = lit.unicode_len();
    if n - pos < m {
        proof {
            assert(pos + lit@.len() > s@.len());
        }
        return None;
    }
    let mut k: usize = 0;
    while k < m
        invariant
            k <= m,
            m == lit@.len(),
            n == s@.len(),
            pos + m <= n,
            forall|j: int| 0 <= j < k ==> s@[pos + j] == lit@[j],
        decreases m - k,
    {
        if s.get_char(pos + k) != lit.get_char(k) {
            proof {
                assert(s@.subrange(pos as int, pos + lit@.len() as int)[k as int] != lit@[
                    k as int
                ]);
            }
            return None;
        }
        k = k + 1;
    }
    proof {
        assert(s@.subrange(pos as int, (pos + m) as int) =~= lit@);
    }
    Some(pos + m)
}


/// Printing a list with one more element appends a separator (when the
/// list was not empty) and the element's spelling.
proof fn lemma_print_tuple_push(xs: Seq<Option<Type>>, e: Option<Type>, k: int)
    requires
        0 <= k <= xs.len(),
    ensures
        print_tuple_elems(xs.push(e), k) == print_tuple_elems(xs, k) + (if xs.len() > 0 {
            ", "@
        } else {
            Seq::<char>::empty()
        }) + (match e {
            Some(t) => print_type(t),
            None => "_"@,
        }),
    decreases xs.len() - k,
{
    let tail = (if xs.len() > 0 {
        ", "@
    } else {
        Seq::<char>::empty()
    }) + (match e {
        Some(t) => print_type(t),
        None => "_"@,
    });
    if k == xs.len() {
        assert(xs.push(e)[k] == e);
        assert(print_tuple_elems(xs.push(e), k + 1) =~= Seq::<char>::empty());
        assert(print_tuple_elems(xs, k) =~= Seq::<char>::empty());
        assert(print_tuple_elems(xs.push(e), k) =~= print_tuple_elems(xs, k) + tail);
    } else {
        lemma_print_tuple_push(xs, e, k + 1);
        assert(xs.push(e)[k] == xs[k]);
        assert(print_tuple_elems(xs.push(e), k) =~= print_tuple_elems(xs, k) + tail);
    }
}

/// The same, for generic-argument lists.
proof fn lemma_print_garg_push(xs: Seq<Option<GenericArg>>, e: Option<GenericArg>, k: int)
    requires
        0 <= k <= xs.len(),
    ensures
        print_garg_elems(xs.push(e), k) == print_garg_elems(xs, k) + (if xs.len() > 0 {
            ", "@
        } else {
            Seq::<char>::empty()
        }) + (match e {
            Some(GenericArg::Type(t)) => print_type(t),
            None => "_"@,
        }),
    decreases xs.len() - k,
{
    let tail = (if xs.len() > 0 {
        ", "@
    } else {
        Seq::<char>::empty()
    }) + (match e {
        Some(GenericArg::Type(t)) => print_type(t),
        None => "_"@,
    });
    if k == xs.len() {
        assert(xs.push(e)[k] == e);
        assert(print_garg_elems(xs.push(e), k + 1) =~= Seq::<char>::empty());
        assert(print_garg_elems(xs, k) =~= Seq::<char>::empty());
        assert(print_garg_elems(xs.push(e), k) =~= print_garg_elems(xs, k) + tail);
    } else {
        lemma_print_garg_push(xs, e, k + 1);
        assert(xs.push(e)[k] == xs[k]);
        assert(print_garg_elems(xs.push(e), k) =~= print_garg_elems(xs, k) + tail);
    }
}

/// The same, for argument lists.
proof fn lemma_print_args_push(xs: Seq<Argument>, e: Argument, k: int)
    requires
        0 <= k <= xs.len(),
    ensures
        print_args(xs.push(e), k) == print_args(xs, k) + (if xs.len() > 0 {
            ", "@
        } else {
            Seq::<char>::empty()
        }) + print_arg(e),
    decreases xs.len() - k,
{
    let tail = (if xs.len() > 0 {
        ", "@
    } else {
        Seq::<char>::empty()
    }) + print_arg(e);
    if k == xs.len() {
        assert(xs.push(e)[k] == e);
        assert(print_args(xs.push(e), k + 1) =~= Seq::<char>::empty());
        assert(print_args(xs, k) =~= Seq::<char>::empty());
        assert(print_args(xs.push(e), k) =~= print_args(xs, k) + tail);
    } else {
        lemma_print_args_push(xs, e, k + 1);
        assert(xs.push(e)[k] == xs[k]);
        assert(print_args(xs.push(e), k) =~= print_args(xs, k) + tail);
    }
}

/// Parses one primitive type name.
pub fn parse_primitive_type(s: &str, pos: usize) -> (r: Result<(PrimitiveType, usize), ParseError>)
    requires
        pos <= s@.len(),
    ensures
        match r {
            Ok(p) => pos <= p.1 <= s@.len() && s@.subrange(pos as int, p.1 as int)
                == p.0.spec_as_str() && spec_parse_primitive(s@, pos as int) == Some(
                (p.0, p.1 as int),
            ),
            Err(e) => pos <= e.position@ <= s@.len() && spec_parse_primitive(
                s@,
                pos as int,
            ) is None,
        },
{
    if let Some(e) = match_lit(s, pos, "isize") {
        return Ok((PrimitiveType::Isize, e));
    }
    if let Some(e) = match_lit(s, pos, "i8") {
        return Ok((PrimitiveType::I8, e));
    }
    if let Some(e) = match_lit(s, pos, "i16") {
        return Ok((PrimitiveType::I16, e));
    }
    if let Some(e) = match_lit(s, pos, "i32") {
        return Ok((PrimitiveType::I32, e));
    }
    if let Some(e) = match_lit(s, pos, "i64") {
        return Ok((PrimitiveType::I64, e));
    }
    if let Some(e) = match_lit(s, pos, "i128") {
        return Ok((PrimitiveType::I128, e));
    }
    if let Some(e) = match_lit(s, pos, "usize") {
        return Ok((PrimitiveType::Usize, e));
    }
    if let Some(e) = match_lit(s, pos, "u8") {
        return Ok((PrimitiveType::U8, e));
    }
    if let Some(e) = match_lit(s, pos, "u16") {
        return Ok((PrimitiveType::U16, e));
    }
    if let Some(e) = match_lit(s, pos, "u32") {
        return Ok((PrimitiveType::U32, e));
    }
    if let Some(e) = match_lit(s, pos, "u64") {
        return Ok((PrimitiveType::U64, e));
    }
    if let Some(e) = match_lit(s, pos, "u128") {
        return Ok((PrimitiveType::U128, e));
    }
    if let Some(e) = match_lit(s, pos, "f32") {
        return Ok((PrimitiveType::F32, e));
    }
    if let Some(e) = match_lit(s, pos, "f64") {
        return Ok((PrimitiveType::F64, e));
    }
    if let Some(e) = match_lit(s, pos, "char") {
        return Ok((PrimitiveType::Char, e));
    }
    if let Some(e) = match_lit(s, pos, "bool") {
        return Ok((PrimitiveType::Bool, e));
    }
    if let Some(e) = match_lit(s, pos, "str") {
        return Ok((PrimitiveType::Str, e));
    }
    Err(ParseError { position: pos })
}

/// Parses an identifier: a letter or underscore, then letters, digits,
/// and underscores.
pub fn parse_symbol(s: &str, pos: usize) -> (r: Result<(Symbol, usize), ParseError>)
    requires
        pos <= s@.len(),
    ensures
        match r {
            Ok(p) => pos < p.1 <= s@.len() && p.0@ == s@.subrange(pos as int, p.1 as int)
                && spec_parse_symbol(s@, pos as int) == Some((p.0@, p.1 as int)) && (forall|j: int|
                0 <= j < p.0@.len() ==> is_ident_char(#[trigger] p.0@[j])),
            Err(e) => pos <= e.position@ <= s@.len() && spec_parse_symbol(s@, pos as int) is None,
        },
{
    let n = s.unicode_len();
    if pos >= n {
        return Err(ParseError { position: pos });
    }
    let c0 = s.get_char(pos);
    let alpha0 = ('a' <= c0 && c0 <= 'z') || ('A' <= c0 && c0 <= 'Z');
    if !(c0 == '_' || alpha0) {
        return Err(ParseError { position: pos });
    }
    let mut i = pos + 1;
    while i < n && ident_char(s.get_char(i))
        invariant
            pos < i <= n,
            n == s@.len(),
            spec_ident_end(s@, i as int) == spec_ident_end(s@, pos as int + 1),
            forall|j: int| pos <= j < i ==> is_ident_char(#[trigger] s@[j]),
        decreases n - i,
    {
        i = i + 1;
    }
    let sym = s.substring_char(pos, i).to_owned();
    Ok((sym, i))
}

/// Parses a generic type parameter: uppercase letters not followed by a
/// lowercase letter.
pub fn parse_generic_type(s: &str, pos: usize) -> (r: Result<(Type, usize), ParseError>)
    requires
        pos <= s@.len(),
    ensures
        match r {
            Ok(p) => pos < p.1 <= s@.len() && strip_ws(print_type(p.0)) == strip_ws(
                s@.subrange(pos as int, p.1 as int),
            ) && spec_parse_generic(s@, pos as int) == Some((type_desc(p.0), p.1 as int)),
            Err(e) => pos <= e.position@ <= s@.len() && spec_parse_generic(s@, pos as int) is None,
        },
{
    let n = s.unicode_len();
    let mut i = pos;
    while i < n && 'A' <= s.get_char(i) && s.get_char(i) <= 'Z'
        invariant
            pos <= i <= n,
            n == s@.len(),
            spec_upper_end(s@, i as int) == spec_upper_end(s@, pos as int),
        decreases n - i,
    {
        i = i + 1;
    }
    if i == pos {
        return Err(ParseError { position: pos });
    }
    if i < n {
        let c = s.get_char(i);
        if 'a' <= c && c <= 'z' {
            return Err(ParseError { position: i });
        }
    }
    let sym = s.substring_char(pos, i).to_owned();
    let t = Type::Generic(sym);
    proof {
        assert(print_type(t) == s@.subrange(pos as int, i as int));
    }
    Ok((t, i))
}


/// The comma-space separator strips to a bare comma.
proof fn lemma_strip_comma_space()
    ensures
        strip_ws(", "@) == ","@,
{
    reveal_strlit(", ");
    reveal_strlit(",");
    reveal_strlit(" ");
    assert(", "@ =~= ","@ + " "@);
    lemma_strip_app(","@, " "@);
    lemma_strip_none(","@);
    lemma_strip_ws_only(" "@);
    assert(strip_ws(", "@) =~= ","@);
}

/// The spelling of one tuple element.
pub open spec fn print_tuple_elem(el: Option<Type>) -> Seq<char> {
    match el {
        Some(t) => print_type(t),
        None => "_"@,
    }
}

/// The spelling of one generic-argument element.
pub open spec fn print_garg_elem(el: Option<GenericArg>) -> Seq<char> {
    match el {
        Some(GenericArg::Type(t)) => print_type(t),
        None => "_"@,
    }
}

/// Parses one tuple element: a wildcard or a type.
fn parse_tuple_elem(s: &str, pos: usize) -> (r: Option<(Option<Type>, usize)>)
    requires
        pos <= s@.len(),
    ensures
        match r {
            Some(p) => pos < p.1 <= s@.len() && strip_ws(print_tuple_elem(p.0)) == strip_ws(
                s@.subrange(pos as int, p.1 as int),
            ) && spec_tuple_elem(s@, pos as int) == Some(
                (
                    match p.0 {
                        Some(t) => Some(type_desc(t)),
                        None => None,
                    },
                    p.1 as int,
                ),
            ),
            None => spec_tuple_elem(s@, pos as int) is None,
        },
    decreases s@.len() - pos, 2int,
{
    let n = s.unicode_len();
    if pos < n && s.get_char(pos) == '_' {
        proof {
            reveal_strlit("_");
            assert(s@.subrange(pos as int, pos + 1) =~= "_"@);
            lemma_strip_none("_"@);
        }
        return Some((None, pos + 1));
    }
    match parse_type(s, pos) {
        Ok((t, e)) => Some((Some(t), e)),
        Err(_) => None,
    }
}

/// Parses one generic-argument element: a wildcard or a type.
fn parse_garg_elem(s: &str, pos: usize) -> (r: Option<(Option<GenericArg>, usize)>)
    requires
        pos <= s@.len(),
    ensures
        match r {
            Some(p) => pos < p.1 <= s@.len() && strip_ws(print_garg_elem(p.0)) == strip_ws(
                s@.subrange(pos as int, p.1 as int),
            ) && spec_garg_elem(s@, pos as int) == Some(
                (
                    match p.0 {
                        Some(GenericArg::Type(t)) => Some(type_desc(t)),
                        None => None,
                    },
                    p.1 as int,
                ),
            ),
            None => spec_garg_elem(s@, pos as int) is None,
        },
    decreases s@.len() - pos, 2int,
{
    let n = s.unicode_len();
    if pos < n && s.get_char(pos) == '_' {
        proof {
            reveal_strlit("_");
            assert(s@.subrange(pos as int, pos + 1) =~= "_"@);
            lemma_strip_none("_"@);
        }
        return Some((None, pos + 1));
    }
    match parse_type(s, pos) {
        Ok((t, e)) => Some((Some(GenericArg::Type(t)), e)),
        Err(_) => None,
    }
}

/// Parses a tuple type `( elem, elem, ... )`.
#[verifier::rlimit(100)]
#[verifier::spinoff_prover]
pub fn parse_tuple(s: &str, pos: usize) -> (r: Result<(Type, usize), ParseError>)
    requires
        pos <= s@.len(),
    ensures
        match r {
            Ok(p) => pos < p.1 <= s@.len() && strip_ws(print_type(p.0)) == strip_ws(
                s@.subrange(pos as int, p.1 as int),
            ) && spec_parse_tuple(s@, pos as int) == Some((type_desc(p.0), p.1 as int)),
            Err(e) => pos <= e.position@ <= s@.len() && spec_parse_tuple(s@, pos as int) is None,
        },
    decreases s@.len() - pos, 0int,
{
    let n = s.unicode_len();
    if pos >= n || s.get_char(pos) != '(' {
        return Err(ParseError { position: pos });
    }
    let start = pos + 1;
    let mut elems: Vec<Option<Type>> = Vec::new();
    let mut cur = start;
    proof {
        assert(strip_ws(s@.subrange(start as int, start as int)) =~= strip_ws(
            print_tuple_elems(elems@, 0),
        ));
    }
    let e0 = skip_ws(s, start);
    let ghost mut whole: (Seq<Option<TypeDesc>>, int) = (
        Seq::<Option<TypeDesc>>::empty(),
        start as int,
    );
    match parse_tuple_elem(s, e0) {
        Some((el, e1)) => {
            proof {
                let rest = spec_tuple_more(s@, e1 as int);
                whole = (
                    seq![
                        match &el {
                            Some(t) => Some(type_desc(*t)),
                            None => None,
                        },
                    ] + rest.0,
                    rest.1,
                );
            }
            proof {
                let ghost pre = elems@;
                lemma_print_tuple_push(pre, el, 0);
                lemma_tuple_desc_push(pre, el, 0);
                assert(s@.subrange(start as int, e1 as int) =~= s@.subrange(
                    start as int,
                    e0 as int,
                ) + s@.subrange(e0 as int, e1 as int));
                lemma_strip_app(
                    s@.subrange(start as int, e0 as int),
                    s@.subrange(e0 as int, e1 as int),
                );
            }
            elems.push(el);
            cur = e1;
            proof {
                assert(strip_ws(s@.subrange(start as int, cur as int)) =~= strip_ws(
                    print_tuple_elems(elems@, 0),
                ));
                assert(tuple_elems_desc(elems@, 0) =~= seq![
                    match &el {
                        Some(t) => Some(type_desc(*t)),
                        None => None,
                    },
                ]);
                assert(tuple_elems_desc(elems@, 0) + spec_tuple_more(s@, cur as int).0
                    =~= whole.0);
            }
            let mut done = false;
            while !done
                invariant
                    start <= cur <= n,
                    n == s@.len(),
                    pos < start,
                    elems@.len() > 0,
                    strip_ws(s@.subrange(start as int, cur as int)) == strip_ws(
                        print_tuple_elems(elems@, 0),
                    ),
                    tuple_elems_desc(elems@, 0) + spec_tuple_more(s@, cur as int).0 == whole.0,
                    spec_tuple_more(s@, cur as int).1 == whole.1,
                    done ==> spec_tuple_more(s@, cur as int) == (
                        Seq::<Option<TypeDesc>>::empty(),
                        cur as int,
                    ),
                decreases n - cur, (if done { 0int } else { 1int }),
            {
                let a = skip_ws(s, cur);
                if !(a < n && s.get_char(a) == ',') {
                    proof {
                        assert(spec_tuple_more(s@, cur as int) == (
                            Seq::<Option<TypeDesc>>::empty(),
                            cur as int,
                        ));
                    }
                    done = true;
                    continue ;
                }
                let b = skip_ws(s, a + 1);
                match parse_tuple_elem(s, b) {
                    Some((el2, e2)) => {
                        proof {
                            assert(spec_tuple_more(s@, cur as int) == (
                                seq![
                                    match &el2 {
                                        Some(t) => Some(type_desc(*t)),
                                        None => None,
                                    },
                                ] + spec_tuple_more(s@, e2 as int).0,
                                spec_tuple_more(s@, e2 as int).1,
                            ));
                        }
                        proof {
                            let ghost pre = elems@;
                            lemma_print_tuple_push(pre, el2, 0);
                            lemma_tuple_desc_push(pre, el2, 0);
                            lemma_strip_comma_space();
                            reveal_strlit(",");
                            assert(s@.subrange(a as int, a + 1) =~= ","@);
                            lemma_strip_none(","@);
                            assert(s@.subrange(start as int, e2 as int) =~= s@.subrange(
                                start as int,
                                cur as int,
                            ) + s@.subrange(cur as int, a as int) + s@.subrange(a as int, a + 1)
                                + s@.subrange(a + 1, b as int) + s@.subrange(b as int, e2 as int));
                            lemma_strip_app(
                                s@.subrange(start as int, cur as int) + s@.subrange(
                                    cur as int,
                                    a as int,
                                ) + s@.subrange(a as int, a + 1) + s@.subrange(a + 1, b as int),
                                s@.subrange(b as int, e2 as int),
                            );
                            lemma_strip_app(
                                s@.subrange(start as int, cur as int) + s@.subrange(
                                    cur as int,
                                    a as int,
                                ) + s@.subrange(a as int, a + 1),
                                s@.subrange(a + 1, b as int),
                            );
                            lemma_strip_app(
                                s@.subrange(start as int, cur as int) + s@.subrange(
                                    cur as int,
                                    a as int,
                                ),
                                s@.subrange(a as int, a + 1),
                            );
                            lemma_strip_app(
                                s@.subrange(start as int, cur as int),
                                s@.subrange(cur as int, a as int),
                            );
                        }
                        elems.push(el2);
                        cur = e2;
                        proof {
                            assert(strip_ws(s@.subrange(start as int, cur as int)) =~= strip_ws(
                                print_tuple_elems(elems@, 0),
                            ));
                            assert(tuple_elems_desc(elems@, 0) + spec_tuple_more(
                                s@,
                                cur as int,
                            ).0 =~= whole.0);
                        }
                    },
                    None => {
                        proof {
                            assert(spec_tuple_more(s@, cur as int) == (
                                Seq::<Option<TypeDesc>>::empty(),
                                cur as int,
                            ));
                        }
                        done = true;
                    },
                }
            }
            proof {
                assert(whole.0 =~= tuple_elems_desc(elems@, 0));
                assert(whole.1 == cur as int);
            }
        },
        None => {
            proof {
                assert(tuple_elems_desc(elems@, 0) =~= Seq::<Option<TypeDesc>>::empty());
            }
        },
    }
    if cur < n && s.get_char(cur) == ')' {
        let t = Type::Tuple(elems);
        proof {
            reveal_strlit("(");
            reveal_strlit(")");
            assert(s@.subrange(pos as int, pos + 1) =~= "("@);
            assert(s@.subrange(cur as int, cur + 1) =~= ")"@);
            lemma_strip_none("("@);
            lemma_strip_none(")"@);
            assert(s@.subrange(pos as int, cur + 1) =~= s@.subrange(pos as int, pos + 1)
                + s@.subrange(start as int, cur as int) + s@.subrange(cur as int, cur + 1));
            lemma_strip_app(
                s@.subrange(pos as int, pos + 1) + s@.subrange(start as int, cur as int),
                s@.subrange(cur as int, cur + 1),
            );
            lemma_strip_app(
                s@.subrange(pos as int, pos + 1),
                s@.subrange(start as int, cur as int),
            );
            lemma_strip_app("("@ + print_tuple_elems(elems@, 0), ")"@);
            lemma_strip_app("("@, print_tuple_elems(elems@, 0));
            assert(type_desc(t) == TypeDesc::Tuple(tuple_elems_desc(elems@, 0)));
            assert(spec_parse_tuple(s@, pos as int) == Some((type_desc(t), cur + 1)));
        }
        Ok((t, cur + 1))
    } else {
        proof {
            assert(spec_parse_tuple(s@, pos as int) is None);
        }
        Err(ParseError { position: cur })
    }
}

/// Parses angle-bracketed generic arguments `< elem, elem, ... >`.
#[verifier::rlimit(100)]
#[verifier::spinoff_prover]
pub fn parse_generic_args(s: &str, pos: usize) -> (r: Result<(GenericArgs, usize), ParseError>)
    requires
        pos <= s@.len(),
    ensures
        match r {
            Ok(p) => pos < p.1 <= s@.len() && strip_ws(print_gargs(p.0)) == strip_ws(
                s@.subrange(pos as int, p.1 as int),
            ) && ({
                let GenericArgs::AngleBracketed { args: xs } = p.0;
                spec_parse_gargs(s@, pos as int) == Some((gargs_desc(xs@, 0), p.1 as int))
            }),
            Err(e) => pos <= e.position@ <= s@.len() && spec_parse_gargs(s@, pos as int) is None,
        },
    decreases s@.len() - pos, 0int,
{
    let n = s.unicode_len();
    if pos >= n || s.get_char(pos) != '<' {
        return Err(ParseError { position: pos });
    }
    let start = pos + 1;
    let mut elems: Vec<Option<GenericArg>> = Vec::new();
    let mut cur = start;
    proof {
        assert(strip_ws(s@.subrange(start as int, start as int)) =~= strip_ws(
            print_garg_elems(elems@, 0),
        ));
    }
    let e0 = skip_ws(s, start);
    let ghost mut whole: (Seq<Option<TypeDesc>>, int) = (
        Seq::<Option<TypeDesc>>::empty(),
        start as int,
    );
    match parse_garg_elem(s, e0) {
        Some((el, e1)) => {
            proof {
                let rest = spec_gargs_more(s@, e1 as int);
                whole = (
                    seq![
                        match &el {
                            Some(GenericArg::Type(t)) => Some(type_desc(*t)),
                            None => None,
                        },
                    ] + rest.0,
                    rest.1,
                );
            }
            proof {
                let ghost pre = elems@;
                lemma_print_garg_push(pre, el, 0);
                lemma_gargs_desc_push(pre, el, 0);
                assert(s@.subrange(start as int, e1 as int) =~= s@.subrange(
                    start as int,
                    e0 as int,
                ) + s@.subrange(e0 as int, e1 as int));
                lemma_strip_app(
                    s@.subrange(start as int, e0 as int),
                    s@.subrange(e0 as int, e1 as int),
                );
            }
            elems.push(el);
            cur = e1;
            proof {
                assert(strip_ws(s@.subrange(start as int, cur as int)) =~= strip_ws(
                    print_garg_elems(elems@, 0),
                ));
                assert(gargs_desc(elems@, 0) =~= seq![
                    match &el {
                        Some(GenericArg::Type(t)) => Some(type_desc(*t)),
                        None => None,
                    },
                ]);
                assert(gargs_desc(elems@, 0) + spec_gargs_more(s@, cur as int).0 =~= whole.0);
            }
            let mut done = false;
            while !done
                invariant
                    start <= cur <= n,
                    n == s@.len(),
                    pos < start,
                    elems@.len() > 0,
                    strip_ws(s@.subrange(start as int, cur as int)) == strip_ws(
                        print_garg_elems(elems@, 0),
                    ),
                    gargs_desc(elems@, 0) + spec_gargs_more(s@, cur as int).0 == whole.0,
                    spec_gargs_more(s@, cur as int).1 == whole.1,
                    done ==> spec_gargs_more(s@, cur as int) == (
                        Seq::<Option<TypeDesc>>::empty(),
                        cur as int,
                    ),
                decreases n - cur, (if done { 0int } else { 1int }),
            {
                let a = skip_ws(s, cur);
                if !(a < n && s.get_char(a) == ',') {
                    proof {
                        assert(spec_gargs_more(s@, cur as int) == (
                            Seq::<Option<TypeDesc>>::empty(),
                            cur as int,
                        ));
                    }
                    done = true;
                    continue ;
                }
                let b = skip_ws(s, a + 1);
                match parse_garg_elem(s, b) {
                    Some((el2, e2)) => {
                        proof {
                            assert(spec_gargs_more(s@, cur as int) == (
                                seq![
                                    match &el2 {
                                        Some(GenericArg::Type(t)) => Some(type_desc(*t)),
                                        None => None,
                                    },
                                ] + spec_gargs_more(s@, e2 as int).0,
                                spec_gargs_more(s@, e2 as int).1,
                            ));
                        }
                        proof {
                            let ghost pre = elems@;
                            lemma_print_garg_push(pre, el2, 0);
                            lemma_gargs_desc_push(pre, el2, 0);
                            lemma_strip_comma_space();
                            reveal_strlit(",");
                            assert(s@.subrange(a as int, a + 1) =~= ","@);
                            lemma_strip_none(","@);
                            assert(s@.subrange(start as int, e2 as int) =~= s@.subrange(
                                start as int,
                                cur as int,
                            ) + s@.subrange(cur as int, a as int) + s@.subrange(a as int, a + 1)
                                + s@.subrange(a + 1, b as int) + s@.subrange(b as int, e2 as int));
                            lemma_strip_app(
                                s@.subrange(start as int, cur as int) + s@.subrange(
                                    cur as int,
                                    a as int,
                                ) + s@.subrange(a as int, a + 1) + s@.subrange(a + 1, b as int),
                                s@.subrange(b as int, e2 as int),
                            );
                            lemma_strip_app(
                                s@.subrange(start as int, cur as int) + s@.subrange(
                                    cur as int,
                                    a as int,
                                ) + s@.subrange(a as int, a + 1),
                                s@.subrange(a + 1, b as int),
                            );
                            lemma_strip_app(
                                s@.subrange(start as int, cur as int) + s@.subrange(
                                    cur as int,
                                    a as int,
                                ),
                                s@.subrange(a as int, a + 1),
                            );
                            lemma_strip_app(
                                s@.subrange(start as int, cur as int),
                                s@.subrange(cur as int, a as int),
                            );
                        }
                        elems.push(el2);
                        cur = e2;
                        proof {
                            assert(strip_ws(s@.subrange(start as int, cur as int)) =~= strip_ws(
                                print_garg_elems(elems@, 0),
                            ));
                            assert(gargs_desc(elems@, 0) + spec_gargs_more(s@, cur as int).0
                                =~= whole.0);
                        }
                    },
                    None => {
                        proof {
                            assert(spec_gargs_more(s@, cur as int) == (
                                Seq::<Option<TypeDesc>>::empty(),
                                cur as int,
                            ));
                        }
                        done = true;
                    },
                }
            }
            proof {
                assert(whole.0 =~= gargs_desc(elems@, 0));
                assert(whole.1 == cur as int);
            }
        },
        None => {
            proof {
                assert(gargs_desc(elems@, 0) =~= Seq::<Option<TypeDesc>>::empty());
            }
        },
    }
    if cur < n && s.get_char(cur) == '>' {
        let ga = GenericArgs::AngleBracketed { args: elems };
        proof {
            reveal_strlit("<");
            reveal_strlit(">");
            assert(s@.subrange(pos as int, pos + 1) =~= "<"@);
            assert(s@.subrange(cur as int, cur + 1) =~= ">"@);
            lemma_strip_none("<"@);
            lemma_strip_none(">"@);
            assert(s@.subrange(pos as int, cur + 1) =~= s@.subrange(pos as int, pos + 1)
                + s@.subrange(start as int, cur as int) + s@.subrange(cur as int, cur + 1));
            lemma_strip_app(
                s@.subrange(pos as int, pos + 1) + s@.subrange(start as int, cur as int),
                s@.subrange(cur as int, cur + 1),
            );
            lemma_strip_app(
                s@.subrange(pos as int, pos + 1),
                s@.subrange(start as int, cur as int),
            );
            lemma_strip_app("<"@ + print_garg_elems(elems@, 0), ">"@);
            lemma_strip_app("<"@, print_garg_elems(elems@, 0));
            assert(spec_parse_gargs(s@, pos as int) == Some((gargs_desc(elems@, 0), cur + 1)));
        }
        Ok((ga, cur + 1))
    } else {
        proof {
            assert(spec_parse_gargs(s@, pos as int) is None);
        }
        Err(ParseError { position: cur })
    }
}

/// Parses a named path with optional generic arguments.
pub fn parse_unresolved_path(s: &str, pos: usize) -> (r: Result<(Type, usize), ParseError>)
    requires
        pos <= s@.len(),
    ensures
        match r {
            Ok(p) => pos < p.1 <= s@.len() && strip_ws(print_type(p.0)) == strip_ws(
                s@.subrange(pos as int, p.1 as int),
            ) && spec_parse_path(s@, pos as int) == Some((type_desc(p.0), p.1 as int)),
            Err(e) => pos <= e.position@ <= s@.len() && spec_parse_path(s@, pos as int) is None,
        },
    decreases s@.len() - pos, 0int,
{
    let (name, e1) = match parse_symbol(s, pos) {
        Ok(p) => p,
        Err(e) => {
            return Err(e);
        },
    };
    match parse_generic_args(s, e1) {
        Ok((ga, e2)) => {
            let t = Type::UnresolvedPath { name, args: Some(Box::new(ga)) };
            proof {
                assert(s@.subrange(pos as int, e2 as int) =~= s@.subrange(pos as int, e1 as int)
                    + s@.subrange(e1 as int, e2 as int));
                lemma_strip_app(
                    s@.subrange(pos as int, e1 as int),
                    s@.subrange(e1 as int, e2 as int),
                );
                if let Type::UnresolvedPath { name: nm, args: ar } = &t {
                    lemma_strip_app(nm@, print_gargs(*ar->0));
                }
            }
            Ok((t, e2))
        },
        Err(_) => {
            let t = Type::UnresolvedPath { name, args: None };
            proof {
                if let Type::UnresolvedPath { name: nm, args: ar } = &t {
                    lemma_strip_app(nm@, Seq::<char>::empty());
                    assert(nm@ + Seq::<char>::empty() =~= nm@);
                }
            }
            Ok((t, e1))
        },
    }
}

/// Parses a slice type `[T]` or `[_]`.
pub fn parse_slice(s: &str, pos: usize) -> (r: Result<(Type, usize), ParseError>)
    requires
        pos <= s@.len(),
    ensures
        match r {
            Ok(p) => pos < p.1 <= s@.len() && strip_ws(print_type(p.0)) == strip_ws(
                s@.subrange(pos as int, p.1 as int),
            ) && spec_parse_slice(s@, pos as int) == Some((type_desc(p.0), p.1 as int)),
            Err(e) => pos <= e.position@ <= s@.len() && spec_parse_slice(s@, pos as int) is None,
        },
    decreases s@.len() - pos, 0int,
{
    let n = s.unicode_len();
    if pos >= n || s.get_char(pos) != '[' {
        return Err(ParseError { position: pos });
    }
    let inner_start = pos + 1;
    let (inner, e1): (Option<Box<Type>>, usize) = if inner_start < n && s.get_char(inner_start)
        == '_' {
        proof {
            reveal_strlit("_");
            assert(s@.subrange(inner_start as int, inner_start + 1) =~= "_"@);
            lemma_strip_none("_"@);
        }
        (None, inner_start + 1)
    } else {
        match parse_type(s, inner_start) {
            Ok((t, e)) => (Some(Box::new(t)), e),
            Err(e) => {
                return Err(e);
            },
        }
    };
    if e1 < n && s.get_char(e1) == ']' {
        let t = Type::Slice(inner);
        proof {
            reveal_strlit("[");
            reveal_strlit("]");
            assert(s@.subrange(pos as int, pos + 1) =~= "["@);
            assert(s@.subrange(e1 as int, e1 + 1) =~= "]"@);
            lemma_strip_none("["@);
            lemma_strip_none("]"@);
            assert(s@.subrange(pos as int, e1 + 1) =~= s@.subrange(pos as int, pos + 1)
                + s@.subrange(inner_start as int, e1 as int) + s@.subrange(e1 as int, e1 + 1));
            lemma_strip_app(
                s@.subrange(pos as int, pos + 1) + s@.subrange(inner_start as int, e1 as int),
                s@.subrange(e1 as int, e1 + 1),
            );
            lemma_strip_app(
                s@.subrange(pos as int, pos + 1),
                s@.subrange(inner_start as int, e1 as int),
            );
            let ip = match &t {
                Type::Slice(Some(t2)) => print_type(**t2),
                _ => "_"@,
            };
            lemma_strip_app("["@ + ip, "]"@);
            lemma_strip_app("["@, ip);
        }
        Ok((t, e1 + 1))
    } else {
        Err(ParseError { position: e1 })
    }
}

/// Parses a raw-pointer type `*mut T` or `*const T`.
pub fn parse_raw_pointer(s: &str, pos: usize) -> (r: Result<(Type, usize), ParseError>)
    requires
        pos <= s@.len(),
    ensures
        match r {
            Ok(p) => pos < p.1 <= s@.len() && strip_ws(print_type(p.0)) == strip_ws(
                s@.subrange(pos as int, p.1 as int),
            ) && spec_parse_ptr(s@, pos as int) == Some((type_desc(p.0), p.1 as int)),
            Err(e) => pos <= e.position@ <= s@.len() && spec_parse_ptr(s@, pos as int) is None,
        },
    decreases s@.len() - pos, 0int,
{
    proof {
        reveal_strlit("*mut");
        reveal_strlit("*const");
    }
    let (mutable, e1): (bool, usize) = if let Some(e) = match_lit(s, pos, "*mut") {
        (true, e)
    } else if let Some(e) = match_lit(s, pos, "*const") {
        (false, e)
    } else {
        return Err(ParseError { position: pos });
    };
    match parse_type(s, e1) {
        Ok((t, e2)) => {
            let out = Type::RawPointer { mutable, type_: Box::new(t) };
            proof {
                assert(s@.subrange(pos as int, e2 as int) =~= s@.subrange(pos as int, e1 as int)
                    + s@.subrange(e1 as int, e2 as int));
                lemma_strip_app(
                    s@.subrange(pos as int, e1 as int),
                    s@.subrange(e1 as int, e2 as int),
                );
                if mutable {
                    reveal_strlit("*mut ");
                    reveal_strlit("*mut");
                    reveal_strlit(" ");
                    assert("*mut "@ =~= "*mut"@ + " "@);
                    lemma_strip_app("*mut"@, " "@);
                    lemma_strip_none("*mut"@);
                    lemma_strip_ws_only(" "@);
                    if let Type::RawPointer { type_: bt, .. } = &out {
                        lemma_strip_app("*mut "@, print_type(**bt));
                    }
                } else {
                    reveal_strlit("*const ");
                    reveal_strlit("*const");
                    reveal_strlit(" ");
                    assert("*const "@ =~= "*const"@ + " "@);
                    lemma_strip_app("*const"@, " "@);
                    lemma_strip_none("*const"@);
                    lemma_strip_ws_only(" "@);
                    if let Type::RawPointer { type_: bt, .. } = &out {
                        lemma_strip_app("*const "@, print_type(**bt));
                    }
                }
            }
            Ok((out, e2))
        },
        Err(e) => Err(e),
    }
}

/// Parses a reference type `&mut T` or `&T`.
pub fn parse_borrowed_ref(s: &str, pos: usize) -> (r: Result<(Type, usize), ParseError>)
    requires
        pos <= s@.len(),
    ensures
        match r {
            Ok(p) => pos < p.1 <= s@.len() && strip_ws(print_type(p.0)) == strip_ws(
                s@.subrange(pos as int, p.1 as int),
            ) && spec_parse_ref(s@, pos as int) == Some((type_desc(p.0), p.1 as int)),
            Err(e) => pos <= e.position@ <= s@.len() && spec_parse_ref(s@, pos as int) is None,
        },
    decreases s@.len() - pos, 0int,
{
    proof {
        reveal_strlit("&mut");
        reveal_strlit("&");
    }
    let (mutable, e1): (bool, usize) = if let Some(e) = match_lit(s, pos, "&mut") {
        (true, e)
    } else if let Some(e) = match_lit(s, pos, "&") {
        (false, e)
    } else {
        return Err(ParseError { position: pos });
    };
    match parse_type(s, e1) {
        Ok((t, e2)) => {
            let out = Type::BorrowedRef { mutable, type_: Box::new(t) };
            proof {
                assert(s@.subrange(pos as int, e2 as int) =~= s@.subrange(pos as int, e1 as int)
                    + s@.subrange(e1 as int, e2 as int));
                lemma_strip_app(
                    s@.subrange(pos as int, e1 as int),
                    s@.subrange(e1 as int, e2 as int),
                );
                if mutable {
                    reveal_strlit("&mut ");
                    reveal_strlit("&mut");
                    reveal_strlit(" ");
                    assert("&mut "@ =~= "&mut"@ + " "@);
                    lemma_strip_app("&mut"@, " "@);
                    lemma_strip_none("&mut"@);
                    lemma_strip_ws_only(" "@);
                    if let Type::BorrowedRef { type_: bt, .. } = &out {
                        lemma_strip_app("&mut "@, print_type(**bt));
                    }
                } else {
                    reveal_strlit("&");
                    lemma_strip_none("&"@);
                    if let Type::BorrowedRef { type_: bt, .. } = &out {
                        lemma_strip_app("&"@, print_type(**bt));
                    }
                }
            }
            Ok((out, e2))
        },
        Err(e) => Err(e),
    }
}

/// Parses one type expression, skipping leading whitespace and trying
/// each alternative of the grammar in order.
#[verifier::rlimit(100)]
#[verifier::spinoff_prover]
pub fn parse_type(s: &str, pos: usize) -> (r: Result<(Type, usize), ParseError>)
    requires
        pos <= s@.len(),
    ensures
        match r {
            Ok(p) => pos < p.1 <= s@.len() && strip_ws(print_type(p.0)) == strip_ws(
                s@.subrange(pos as int, p.1 as int),
            ) && spec_parse_type(s@, pos as int) == Some((type_desc(p.0), p.1 as int)),
            Err(e) => pos <= e.position@ <= s@.len() && spec_parse_type(s@, pos as int) is None,
        },
    decreases s@.len() - pos, 1int,
{
    let n = s.unicode_len();
    let w = skip_ws(s, pos);
    if let Ok((p, e)) = parse_primitive_type(s, w) {
        proof {
            lemma_prim_no_ws(p);
            lemma_strip_none(p.spec_as_str());
            assert(print_type(Type::Primitive(p)) == p.spec_as_str());
            assert(s@.subrange(w as int, e as int).len() == e - w);
            assert(p.spec_as_str().len() > 0) by {
                reveal_strlit("isize");
                reveal_strlit("i8");
                reveal_strlit("i16");
                reveal_strlit("i32");
                reveal_strlit("i64");
                reveal_strlit("i128");
                reveal_strlit("usize");
                reveal_strlit("u8");
                reveal_strlit("u16");
                reveal_strlit("u32");
                reveal_strlit("u64");
                reveal_strlit("u128");
                reveal_strlit("f32");
                reveal_strlit("f64");
                reveal_strlit("char");
                reveal_strlit("bool");
                reveal_strlit("str");
                reveal_strlit("unit");
                reveal_strlit("never");
            }
            assert(s@.subrange(pos as int, e as int) =~= s@.subrange(pos as int, w as int)
                + s@.subrange(w as int, e as int));
            lemma_strip_app(s@.subrange(pos as int, w as int), s@.subrange(w as int, e as int));
        }
        return Ok((Type::Primitive(p), e));
    }
    if let Ok((t, e)) = parse_generic_type(s, w) {
        proof {
            assert(s@.subrange(pos as int, e as int) =~= s@.subrange(pos as int, w as int)
                + s@.subrange(w as int, e as int));
            lemma_strip_app(s@.subrange(pos as int, w as int), s@.subrange(w as int, e as int));
        }
        return Ok((t, e));
    }
    if let Ok((t, e)) = parse_unresolved_path(s, w) {
        proof {
            assert(s@.subrange(pos as int, e as int) =~= s@.subrange(pos as int, w as int)
                + s@.subrange(w as int, e as int));
            lemma_strip_app(s@.subrange(pos as int, w as int), s@.subrange(w as int, e as int));
        }
        return Ok((t, e));
    }
    if let Ok((t, e)) = parse_tuple(s, w) {
        proof {
            assert(s@.subrange(pos as int, e as int) =~= s@.subrange(pos as int, w as int)
                + s@.subrange(w as int, e as int));
            lemma_strip_app(s@.subrange(pos as int, w as int), s@.subrange(w as int, e as int));
        }
        return Ok((t, e));
    }
    if let Ok((t, e)) = parse_slice(s, w) {
        proof {
            assert(s@.subrange(pos as int, e as int) =~= s@.subrange(pos as int, w as int)
                + s@.subrange(w as int, e as int));
            lemma_strip_app(s@.subrange(pos as int, w as int), s@.subrange(w as int, e as int));
        }
        return Ok((t, e));
    }
    if w < n && s.get_char(w) == '!' {
        proof {
            reveal_strlit("!");
            assert(s@.subrange(w as int, w + 1) =~= "!"@);
            lemma_strip_none("!"@);
            assert(s@.subrange(pos as int, w + 1 as int) =~= s@.subrange(pos as int, w as int)
                + s@.subrange(w as int, w + 1));
            lemma_strip_app(s@.subrange(pos as int, w as int), s@.subrange(w as int, w + 1));
        }
        return Ok((Type::Never, w + 1));
    }
    if let Ok((t, e)) = parse_raw_pointer(s, w) {
        proof {
            assert(s@.subrange(pos as int, e as int) =~= s@.subrange(pos as int, w as int)
                + s@.subrange(w as int, e as int));
            lemma_strip_app(s@.subrange(pos as int, w as int), s@.subrange(w as int, e as int));
        }
        return Ok((t, e));
    }
    if let Ok((t, e)) = parse_borrowed_ref(s, w) {
        proof {
            assert(s@.subrange(pos as int, e as int) =~= s@.subrange(pos as int, w as int)
                + s@.subrange(w as int, e as int));
            lemma_strip_app(s@.subrange(pos as int, w as int), s@.subrange(w as int, e as int));
        }
        return Ok((t, e));
    }
    Err(ParseError { position: w })
}

/// The spelling of a primitive type contains no whitespace — which
/// [`parse_primitive_type`] consumes exactly.
proof fn lemma_prim_no_ws(p: PrimitiveType)
    ensures
        forall|i: int| 0 <= i < p.spec_as_str().len() ==> !is_ws(#[trigger] p.spec_as_str()[i]),
{
    reveal_strlit("isize");
    reveal_strlit("i8");
    reveal_strlit("i16");
    reveal_strlit("i32");
    reveal_strlit("i64");
    reveal_strlit("i128");
    reveal_strlit("usize");
    reveal_strlit("u8");
    reveal_strlit("u16");
    reveal_strlit("u32");
    reveal_strlit("u64");
    reveal_strlit("u128");
    reveal_strlit("f32");
    reveal_strlit("f64");
    reveal_strlit("char");
    reveal_strlit("bool");
    reveal_strlit("str");
    reveal_strlit("unit");
    reveal_strlit("never");
}


/// An identifier character is never whitespace.
proof fn lemma_ident_not_ws(t: Seq<char>)
    requires
        forall|j: int| 0 <= j < t.len() ==> is_ident_char(#[trigger] t[j]),
    ensures
        strip_ws(t) == t,
{
    assert forall|j: int| 0 <= j < t.len() implies !is_ws(#[trigger] t[j]) by {
        assert(is_ident_char(t[j]));
    }
    lemma_strip_none(t);
}

/// Parses a named argument `name: type` or `name: _`; a name spelled as
/// the wildcard `_` is left unrecorded.
#[verifier::rlimit(100)]
#[verifier::spinoff_prover]
pub fn parse_argument(s: &str, pos: usize) -> (r: Result<(Argument, usize), ParseError>)
    requires
        pos <= s@.len(),
    ensures
        match r {
            Ok(p) => pos < p.1 <= s@.len() && spec_parse_argument(s@, pos as int) == Some(
                (arg_desc(p.0), p.1 as int),
            ) && (p.0.name is Some ==> strip_ws(print_arg(p.0)) == strip_ws(
                s@.subrange(pos as int, p.1 as int),
            )) && (p.0.name is None ==> anon_named_at(s@, pos as int)),
            Err(e) => pos <= e.position@ <= s@.len() && spec_parse_argument(
                s@,
                pos as int,
            ) is None,
        },
    decreases s@.len() - pos, 3int,
{
    let n = s.unicode_len();
    let (sym, p1) = match parse_symbol(s, pos) {
        Ok(p) => p,
        Err(e) => {
            return Err(e);
        },
    };
    if !(p1 < n && s.get_char(p1) == ':') {
        return Err(ParseError { position: p1 });
    }
    let p2 = p1 + 1;
    let p3 = skip_ws(s, p2);
    let (ty, end): (Option<Type>, usize) = if p3 < n && s.get_char(p3) == '_' {
        (None, p3 + 1)
    } else {
        match parse_type(s, p3) {
            Ok((t, e)) => (Some(t), e),
            Err(e) => {
                return Err(e);
            },
        }
    };
    proof {
        reveal_strlit("_");
    }
    let wild_name = crate::corpus::str_eq(sym.as_str(), "_");
    proof {
        if sym@ == "_"@ {
            assert(s@.subrange(pos as int, p1 as int).len() == 1);
            assert(p1 == pos + 1);
            assert(s@.subrange(pos as int, p1 as int)[0] == s@[pos as int]);
            assert(anon_named_at(s@, pos as int));
        }
    }
    let a = Argument {
        ty,
        name: if wild_name {
            None
        } else {
            Some(sym)
        },
    };
    proof {
        reveal_strlit(":");
        reveal_strlit(": ");
        reveal_strlit(": _");
        reveal_strlit("_");
        reveal_strlit(" ");
        assert(s@.subrange(p1 as int, p2 as int) =~= ":"@);
        lemma_strip_none(":"@);
        assert(s@.subrange(pos as int, end as int) =~= s@.subrange(pos as int, p1 as int)
            + s@.subrange(p1 as int, p2 as int) + s@.subrange(p2 as int, p3 as int) + s@.subrange(
            p3 as int,
            end as int,
        ));
        lemma_strip_app(
            s@.subrange(pos as int, p1 as int) + s@.subrange(p1 as int, p2 as int) + s@.subrange(
                p2 as int,
                p3 as int,
            ),
            s@.subrange(p3 as int, end as int),
        );
        lemma_strip_app(
            s@.subrange(pos as int, p1 as int) + s@.subrange(p1 as int, p2 as int),
            s@.subrange(p2 as int, p3 as int),
        );
        lemma_strip_app(s@.subrange(pos as int, p1 as int), s@.subrange(p1 as int, p2 as int));
        if let Argument { ty: tyv, name: Some(nm) } = &a {
            lemma_ident_not_ws(nm@);
            match tyv {
                Some(t) => {
                    assert(": "@ =~= ":"@ + " "@);
                    lemma_strip_app(":"@, " "@);
                    lemma_strip_ws_only(" "@);
                    lemma_strip_app(nm@ + ": "@, print_type(*t));
                    lemma_strip_app(nm@, ": "@);
                    assert(strip_ws(print_arg(a)) =~= strip_ws(
                        s@.subrange(pos as int, end as int),
                    ));
                },
                None => {
                    assert(s@.subrange(p3 as int, end as int) =~= "_"@);
                    lemma_strip_none("_"@);
                    assert(": _"@ =~= ":"@ + " "@ + "_"@);
                    lemma_strip_app(":"@ + " "@, "_"@);
                    lemma_strip_app(":"@, " "@);
                    lemma_strip_ws_only(" "@);
                    lemma_strip_app(nm@, ": _"@);
                    assert(strip_ws(print_arg(a)) =~= strip_ws(
                        s@.subrange(pos as int, end as int),
                    ));
                },
            }
        }
    }
    Ok((a, end))
}

/// Parses one element of an argument list: a named argument, a bare
/// wildcard, or a positional type.
fn parse_arg_elem(s: &str, pos: usize) -> (r: Option<(Argument, usize)>)
    requires
        pos <= s@.len(),
    ensures
        match r {
            Some(p) => pos < p.1 <= s@.len() && spec_arg_elem(s@, pos as int) == Some(
                (arg_desc(p.0), p.1 as int),
            ) && (!anon_named_at(s@, pos as int) ==> strip_ws(print_arg(p.0)) == strip_ws(
                s@.subrange(pos as int, p.1 as int),
            )),
            None => spec_arg_elem(s@, pos as int) is None,
        },
    decreases s@.len() - pos, 4int,
{
    let n = s.unicode_len();
    if let Ok((a, e)) = parse_argument(s, pos) {
        return Some((a, e));
    }
    if pos < n && s.get_char(pos) == '_' {
        proof {
            reveal_strlit("_");
            assert(s@.subrange(pos as int, pos + 1) =~= "_"@);
            lemma_strip_none("_"@);
        }
        return Some((Argument { ty: None, name: None }, pos + 1));
    }
    match parse_type(s, pos) {
        Ok((t, e)) => Some((Argument { ty: Some(t), name: None }, e)),
        Err(_) => None,
    }
}

/// Parses a comma-separated argument list; an empty list is allowed.
#[verifier::rlimit(100)]
#[verifier::spinoff_prover]
pub fn parse_arguments(s: &str, pos: usize) -> (r: (Vec<Argument>, usize))
    requires
        pos <= s@.len(),
    ensures
        pos <= r.1 <= s@.len(),
        spec_parse_arguments(s@, pos as int) == (args_desc(r.0@), r.1 as int),
        no_anon_named(s@, pos as int, r.1 as int) ==> strip_ws(print_args(r.0@, 0)) == strip_ws(
            s@.subrange(pos as int, r.1 as int),
        ),
    decreases s@.len() - pos, 5int,
{
    let n = s.unicode_len();
    let mut elems: Vec<Argument> = Vec::new();
    let mut cur = pos;
    let ghost mut whole: (Seq<ArgDesc>, int) = (Seq::<ArgDesc>::empty(), pos as int);
    proof {
        assert(args_desc(elems@) =~= Seq::<ArgDesc>::empty());
        assert(strip_ws(s@.subrange(pos as int, pos as int)) =~= strip_ws(print_args(elems@, 0)));
    }
    let e0 = skip_ws(s, pos);
    match parse_arg_elem(s, e0) {
        Some((el, e1)) => {
            proof {
                let rest = spec_args_more(s@, e1 as int);
                whole = (seq![arg_desc(el)] + rest.0, rest.1);
            }
            proof {
                let ghost pre = elems@;
                lemma_print_args_push(pre, el, 0);
                lemma_args_desc_push(pre, el);
                assert(s@.subrange(pos as int, e1 as int) =~= s@.subrange(pos as int, e0 as int)
                    + s@.subrange(e0 as int, e1 as int));
                lemma_strip_app(
                    s@.subrange(pos as int, e0 as int),
                    s@.subrange(e0 as int, e1 as int),
                );
            }
            elems.push(el);
            cur = e1;
            proof {
                assert(args_desc(elems@) =~= seq![arg_desc(el)]);
                assert(args_desc(elems@) + spec_args_more(s@, cur as int).0 =~= whole.0);
                if no_anon_named(s@, pos as int, cur as int) {
                    assert(!anon_named_at(s@, e0 as int));
                    assert(strip_ws(s@.subrange(pos as int, cur as int)) =~= strip_ws(
                        print_args(elems@, 0),
                    ));
                }
            }
            let mut done = false;
            while !done
                invariant
                    pos <= cur <= n,
                    n == s@.len(),
                    elems@.len() > 0,
                    args_desc(elems@) + spec_args_more(s@, cur as int).0 == whole.0,
                    spec_args_more(s@, cur as int).1 == whole.1,
                    done ==> spec_args_more(s@, cur as int) == (Seq::<ArgDesc>::empty(), cur as int),
                    no_anon_named(s@, pos as int, cur as int) ==> strip_ws(
                        s@.subrange(pos as int, cur as int),
                    ) == strip_ws(print_args(elems@, 0)),
                decreases n - cur, (if done { 0int } else { 1int }),
            {
                let a = skip_ws(s, cur);
                if !(a < n && s.get_char(a) == ',') {
                    proof {
                        assert(spec_args_more(s@, cur as int) == (
                            Seq::<ArgDesc>::empty(),
                            cur as int,
                        ));
                    }
                    done = true;
                    continue ;
                }
                let b = skip_ws(s, a + 1);
                match parse_arg_elem(s, b) {
                    Some((el2, e2)) => {
                        proof {
                            assert(spec_args_more(s@, cur as int) == (
                                seq![arg_desc(el2)] + spec_args_more(s@, e2 as int).0,
                                spec_args_more(s@, e2 as int).1,
                            ));
                        }
                        let ghost cur0 = cur as int;
                        proof {
                            let ghost pre = elems@;
                            lemma_print_args_push(pre, el2, 0);
                            lemma_args_desc_push(pre, el2);
                            lemma_strip_comma_space();
                            reveal_strlit(",");
                            assert(s@.subrange(a as int, a + 1) =~= ","@);
                            lemma_strip_none(","@);
                            assert(s@.subrange(pos as int, e2 as int) =~= s@.subrange(
                                pos as int,
                                cur as int,
                            ) + s@.subrange(cur as int, a as int) + s@.subrange(a as int, a + 1)
                                + s@.subrange(a + 1, b as int) + s@.subrange(b as int, e2 as int));
                            lemma_strip_app(
                                s@.subrange(pos as int, cur as int) + s@.subrange(
                                    cur as int,
                                    a as int,
                                ) + s@.subrange(a as int, a + 1) + s@.subrange(a + 1, b as int),
                                s@.subrange(b as int, e2 as int),
                            );
                            lemma_strip_app(
                                s@.subrange(pos as int, cur as int) + s@.subrange(
                                    cur as int,
                                    a as int,
                                ) + s@.subrange(a as int, a + 1),
                                s@.subrange(a + 1, b as int),
                            );
                            lemma_strip_app(
                                s@.subrange(pos as int, cur as int) + s@.subrange(
                                    cur as int,
                                    a as int,
                                ),
                                s@.subrange(a as int, a + 1),
                            );
                            lemma_strip_app(
                                s@.subrange(pos as int, cur as int),
                                s@.subrange(cur as int, a as int),
                            );
                        }
                        elems.push(el2);
                        cur = e2;
                        proof {
                            assert(args_desc(elems@) + spec_args_more(s@, cur as int).0
                                =~= whole.0);
                            if no_anon_named(s@, pos as int, cur as int) {
                                assert(no_anon_named(s@, pos as int, cur0));
                                assert(!anon_named_at(s@, b as int));
                                assert(strip_ws(s@.subrange(pos as int, cur as int)) =~= strip_ws(
                                    print_args(elems@, 0),
                                ));
                            }
                        }
                    },
                    None => {
                        proof {
                            assert(spec_args_more(s@, cur as int) == (
                                Seq::<ArgDesc>::empty(),
                                cur as int,
                            ));
                        }
                        done = true;
                    },
                }
            }
            proof {
                assert(whole.0 =~= args_desc(elems@));
                assert(whole.1 == cur as int);
            }
        },
        None => {
        },
    }
    proof {
        assert(spec_parse_arguments(s@, pos as int) == (args_desc(elems@), cur as int));
    }
    (elems, cur)
}

/// Parses a return clause `-> type`, or recognizes the end of the query
/// as the default return.
#[verifier::rlimit(100)]
#[verifier::spinoff_prover]
pub fn parse_output(s: &str, pos: usize) -> (r: Result<(FnRetTy, usize), ParseError>)
    requires
        pos <= s@.len(),
    ensures
        match r {
            Ok(p) => pos <= p.1 <= s@.len() && strip_ws(print_ret(p.0)) == strip_ws(
                s@.subrange(pos as int, p.1 as int),
            ) && spec_parse_output(s@, pos as int) == Some((ret_desc(p.0), p.1 as int)),
            Err(e) => pos <= e.position@ <= s@.len() && spec_parse_output(s@, pos as int) is None,
        },
    decreases s@.len() - pos, 5int,
{
    let n = s.unicode_len();
    let w = skip_ws(s, pos);
    proof {
        reveal_strlit("->");
    }
    if let Some(e1) = match_lit(s, w, "->") {
        match parse_type(s, e1) {
            Ok((t, e2)) => {
                let out = FnRetTy::Return(t);
                proof {
                    lemma_strip_none("->"@);
                    reveal_strlit(" -> ");
                    reveal_strlit(" ");
                    assert(" -> "@ =~= " "@ + "->"@ + " "@);
                    lemma_strip_app(" "@ + "->"@, " "@);
                    lemma_strip_app(" "@, "->"@);
                    lemma_strip_ws_only(" "@);
                    assert(s@.subrange(pos as int, e2 as int) =~= s@.subrange(
                        pos as int,
                        w as int,
                    ) + s@.subrange(w as int, e1 as int) + s@.subrange(e1 as int, e2 as int));
                    lemma_strip_app(
                        s@.subrange(pos as int, w as int) + s@.subrange(w as int, e1 as int),
                        s@.subrange(e1 as int, e2 as int),
                    );
                    lemma_strip_app(
                        s@.subrange(pos as int, w as int),
                        s@.subrange(w as int, e1 as int),
                    );
                    if let FnRetTy::Return(t2) = &out {
                        lemma_strip_app(" -> "@, print_type(*t2));
                    }
                }
                Ok((out, e2))
            },
            Err(e) => Err(e),
        }
    } else if w == n {
        proof {
            assert(s@.subrange(pos as int, w as int).len() >= 0);
        }
        Ok((FnRetTy::DefaultReturn, w))
    } else {
        Err(ParseError { position: w })
    }
}

/// Parses a declaration `( args ) -> ret`, where the argument position
/// may also hold the any-inputs sentinel `..`.
#[verifier::rlimit(100)]
#[verifier::spinoff_prover]
pub fn parse_function_decl(s: &str, pos: usize) -> (r: Result<(FnDecl, usize), ParseError>)
    requires
        pos <= s@.len(),
    ensures
        match r {
            Ok(p) => pos < p.1 <= s@.len() && spec_parse_decl(s@, pos as int) == Some(
                (decl_desc(p.0), p.1 as int),
            ) && (no_anon_named(s@, pos as int, p.1 as int) ==> strip_ws(print_decl(p.0))
                == strip_ws(s@.subrange(pos as int, p.1 as int))),
            Err(e) => pos <= e.position@ <= s@.len() && spec_parse_decl(s@, pos as int) is None,
        },
    decreases s@.len() - pos, 6int,
{
    let n = s.unicode_len();
    if !(pos < n && s.get_char(pos) == '(') {
        return Err(ParseError { position: pos });
    }
    let start = pos + 1;
    proof {
        reveal_strlit("..");
    }
    let (inputs, close): (Option<Vec<Argument>>, usize) = if let Some(e1) = match_lit(
        s,
        start,
        "..",
    ) {
        (None, e1)
    } else {
        let (args, e1) = parse_arguments(s, start);
        (Some(args), e1)
    };
    if !(close < n && s.get_char(close) == ')') {
        return Err(ParseError { position: close });
    }
    let after = close + 1;
    let (output, end): (Option<FnRetTy>, usize) = match parse_output(s, after) {
        Ok((o, e2)) => (Some(o), e2),
        Err(_) => (None, after),
    };
    let d = FnDecl { inputs, output };
    proof {
        reveal_strlit("(");
        reveal_strlit(")");
        assert(s@.subrange(pos as int, pos + 1) =~= "("@);
        assert(s@.subrange(close as int, after as int) =~= ")"@);
        lemma_strip_none("("@);
        lemma_strip_none(")"@);
        if d.inputs is None {
            assert(s@.subrange(start as int, close as int) =~= ".."@);
            lemma_strip_none(".."@);
        }
        assert(s@.subrange(pos as int, end as int) =~= s@.subrange(pos as int, pos + 1)
            + s@.subrange(start as int, close as int) + s@.subrange(close as int, after as int)
            + s@.subrange(after as int, end as int));
        lemma_strip_app(
            s@.subrange(pos as int, pos + 1) + s@.subrange(start as int, close as int)
                + s@.subrange(close as int, after as int),
            s@.subrange(after as int, end as int),
        );
        lemma_strip_app(
            s@.subrange(pos as int, pos + 1) + s@.subrange(start as int, close as int),
            s@.subrange(close as int, after as int),
        );
        lemma_strip_app(s@.subrange(pos as int, pos + 1), s@.subrange(start as int, close as int));
        let mid = match &d.inputs {
            Some(xs) => print_args(xs@, 0),
            None => ".."@,
        };
        let outp = match &d.output {
            Some(r2) => print_ret(*r2),
            None => Seq::<char>::empty(),
        };
        lemma_strip_app("("@ + mid + ")"@, outp);
        lemma_strip_app("("@ + mid, ")"@);
        lemma_strip_app("("@, mid);
        assert(spec_parse_decl(s@, pos as int) == Some((decl_desc(d), end as int)));
        if no_anon_named(s@, pos as int, end as int) {
            assert(no_anon_named(s@, start as int, close as int));
            assert(strip_ws(print_decl(d)) =~= strip_ws(s@.subrange(pos as int, end as int)));
        }
    }
    Ok((d, end))
}

/// Parses a function pattern: its declaration.
pub fn parse_function(s: &str, pos: usize) -> (r: Result<(Function, usize), ParseError>)
    requires
        pos <= s@.len(),
    ensures
        match r {
            Ok(p) => pos < p.1 <= s@.len() && spec_parse_decl(s@, pos as int) == Some(
                (decl_desc(p.0.decl), p.1 as int),
            ) && (no_anon_named(s@, pos as int, p.1 as int) ==> strip_ws(print_decl(p.0.decl))
                == strip_ws(s@.subrange(pos as int, p.1 as int))),
            Err(e) => pos <= e.position@ <= s@.len() && spec_parse_decl(s@, pos as int) is None,
        },
    decreases s@.len() - pos, 7int,
{
    match parse_function_decl(s, pos) {
        Ok((d, e)) => Ok((Function { decl: d }, e)),
        Err(e) => Err(e),
    }
}

/// Parses a whole query: `fn`, whitespace, an optional name, and an
/// optional declaration.
#[verifier::rlimit(100)]
#[verifier::spinoff_prover]
pub fn parse_function_query(s: &str, pos: usize) -> (r: Result<(Query, usize), ParseError>)
    requires
        pos <= s@.len(),
    ensures
        match r {
            Ok(p) => pos < p.1 <= s@.len() && spec_parse_fn_query(s@, pos as int) == Some(
                (query_desc(p.0), p.1 as int),
            ) && (no_anon_named(s@, pos as int, p.1 as int) ==> strip_ws(print_query(p.0))
                == strip_ws(s@.subrange(pos as int, p.1 as int))),
            Err(e) => pos <= e.position@ <= s@.len() && spec_parse_fn_query(
                s@,
                pos as int,
            ) is None,
        },
        r is Ok <==> (pos + 3 <= s@.len() && s@.subrange(pos as int, pos + 2) == "fn"@ && is_ws(
            s@[pos + 2],
        )),
    decreases s@.len() - pos, 8int,
{
    let n = s.unicode_len();
    proof {
        reveal_strlit("fn");
    }
    let e_fn = match match_lit(s, pos, "fn") {
        Some(e) => e,
        None => {
            return Err(ParseError { position: pos });
        },
    };
    if !(e_fn < n && ws_char(s.get_char(e_fn))) {
        return Err(ParseError { position: e_fn });
    }
    let w = skip_ws(s, e_fn);
    let (name, p1): (Option<Symbol>, usize) = match parse_symbol(s, w) {
        Ok((sym, e)) => (Some(sym), e),
        Err(_) => (None, w),
    };
    let (kind, end): (Option<QueryKind>, usize) = match parse_function(s, p1) {
        Ok((f, e)) => (Some(QueryKind::FunctionQuery(f)), e),
        Err(_) => (None, p1),
    };
    let q = Query { name, kind };
    proof {
        lemma_strip_none("fn"@);
        reveal_strlit("fn ");
        reveal_strlit(" ");
        assert("fn "@ =~= "fn"@ + " "@);
        lemma_strip_app("fn"@, " "@);
        lemma_strip_ws_only(" "@);
        assert(s@.subrange(pos as int, end as int) =~= s@.subrange(pos as int, e_fn as int)
            + s@.subrange(e_fn as int, w as int) + s@.subrange(w as int, p1 as int) + s@.subrange(
            p1 as int,
            end as int,
        ));
        lemma_strip_app(
            s@.subrange(pos as int, e_fn as int) + s@.subrange(e_fn as int, w as int)
                + s@.subrange(w as int, p1 as int),
            s@.subrange(p1 as int, end as int),
        );
        lemma_strip_app(
            s@.subrange(pos as int, e_fn as int) + s@.subrange(e_fn as int, w as int),
            s@.subrange(w as int, p1 as int),
        );
        lemma_strip_app(s@.subrange(pos as int, e_fn as int), s@.subrange(e_fn as int, w as int));
        let nm = match &q.name {
            Some(n2) => n2@,
            None => Seq::<char>::empty(),
        };
        if let Some(n2) = &q.name {
            lemma_ident_not_ws(n2@);
        }
        let dp = match &q.kind {
            Some(QueryKind::FunctionQuery(f)) => print_decl(f.decl),
            None => Seq::<char>::empty(),
        };
        if no_anon_named(s@, pos as int, end as int) {
            assert(no_anon_named(s@, p1 as int, end as int));
            lemma_strip_app("fn "@ + nm, dp);
            lemma_strip_app("fn "@, nm);
            assert(strip_ws(print_query(q)) =~= strip_ws(s@.subrange(pos as int, end as int)));
        }
        assert(spec_parse_fn_query(s@, pos as int) == Some((query_desc(q), end as int)));
    }
    Ok((q, end))
}

/// Parses a query string from its beginning.
///
/// Succeeds exactly on strings that open with `fn` followed by
/// whitespace; the parsed value and the consumed prefix are exactly what
/// [`spec_parse_query`] says, and printing the parsed query gives back
/// that prefix, whitespace aside, whenever no argument name is spelled as
/// the wildcard.
pub fn parse_query(s: &str) -> (r: Result<(Query, usize), ParseError>)
    ensures
        match r {
            Ok(p) => p.1 <= s@.len() && spec_parse_query(s@) == Some(
                (query_desc(p.0), p.1 as int),
            ) && (no_anon_named(s@, 0, p.1 as int) ==> strip_ws(print_query(p.0)) == strip_ws(
                s@.subrange(0, p.1 as int),
            )),
            Err(e) => e.position@ <= s@.len() && spec_parse_query(s@) is None,
        },
        r is Ok <==> (3 <= s@.len() && s@.subrange(0, 2) == "fn"@ && is_ws(s@[2])),
{
    parse_function_query(s, 0)
}

} // verus!
