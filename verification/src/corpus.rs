//! The model of the indexed corpus.
//!
//! These types describe documented items the way the index stores them:
//! one [`Crate`] per indexed crate, holding items keyed by [`Id`] and a
//! summary of each item's module path. The shapes follow the output of the
//! documentation generator that produced the index.

use vstd::prelude::*;

verus! {

/// An item identifier, unique within one crate.
#[derive(Clone, Debug, PartialEq, Eq)]
pub struct Id(pub String);

/// One indexed crate: its items and their path summaries.
pub struct Crate {
    /// The id of the crate's root module.
    pub root: Id,
    pub crate_version: Option<String>,
    /// Items of the crate, keyed by id. First match wins on lookup.
    pub index: Vec<(Id, Item)>,
    /// Path summaries, keyed by id. First match wins on lookup.
    pub paths: Vec<(Id, ItemSummary)>,
    pub format_version: u32,
}

/// Anything the documentation generator can document.
pub struct Item {
    pub id: Id,
    /// Not every item has a name; impls, for example, do not.
    pub name: Option<String>,
    pub visibility: Visibility,
    pub docs: Option<String>,
    pub inner: ItemEnum,
}

/// The kind-specific payload of an [`Item`].
pub enum ItemEnum {
    Module(Module),
    Import(Import),
    Union(Union),
    Struct(Struct),
    StructField(Type),
    Enum(Enum),
    Variant(Variant),
    Function(Function),
    Trait(Trait),
    TraitAlias(TraitAlias),
    Method(Method),
    Impl(Impl),
    Typedef(Typedef),
    OpaqueTy(OpaqueTy),
    Constant(Constant),
    Static(Static),
    ForeignType,
    Macro(Macro),
    ProcMacro(ProcMacro),
    AssocConst { type_: Type },
    AssocType { bounds: Vec<GenericBound>, default: Option<Type> },
}

/// A path summary: where an item lives and what kind it is.
pub struct ItemSummary {
    /// The item's module path, ending with the item's own name.
    pub path: Vec<String>,
    pub kind: ItemKind,
}

/// The kind tag used in path summaries.
#[derive(Clone, Copy, Debug, PartialEq, Eq)]
pub enum ItemKind {
    Module,
    Import,
    Struct,
    StructField,
    Union,
    Enum,
    Variant,
    Function,
    Typedef,
    OpaqueTy,
    Constant,
    Trait,
    TraitAlias,
    Method,
    Impl,
    Static,
    ForeignType,
    Macro,
    ProcMacro,
    Primitive,
    AssocConst,
    AssocType,
    Keyword,
}

/// An item's visibility.
#[derive(Clone, Copy, Debug, PartialEq, Eq)]
pub enum Visibility {
    Public,
    /// Visibility inherited from the parent, as for enum variants.
    Inherited,
    /// `pub(crate)` and friends.
    Restricted,
}

/// A module's contents.
pub struct Module {
    pub is_crate: bool,
    pub items: Vec<Id>,
}

/// A `use` item.
pub struct Import {
    pub kind: ImportKind,
    pub source: ImportSource,
    pub should_be_displayed: bool,
}

/// How an import binds its source.
pub enum ImportKind {
    /// `use source as name;`
    Simple(String),
    /// `use source::*;`
    Glob,
}

/// The path an import names.
pub struct ImportSource {
    pub path: Path,
}

/// A (possibly global) path of segments.
pub struct Path {
    pub global: bool,
    pub segments: Vec<PathSegment>,
}

/// One segment of a [`Path`].
pub struct PathSegment {
    pub name: String,
    pub args: GenericArgs,
}

/// A struct definition.
pub struct Struct {
    pub generics: Generics,
    pub fields: Vec<Id>,
    pub fields_stripped: bool,
}

/// A union definition.
pub struct Union {
    pub generics: Generics,
    pub fields: Vec<Id>,
    pub fields_stripped: bool,
}

/// An enum definition.
pub struct Enum {
    pub generics: Generics,
    pub variants: Vec<Id>,
    pub variants_stripped: bool,
}

/// One enum variant.
pub enum Variant {
    CLike,
    Tuple(Vec<Type>),
    Struct(VariantStruct),
}

/// The fields of a struct-like enum variant.
pub struct VariantStruct {
    pub fields: Vec<Id>,
    pub fields_stripped: bool,
}

/// A free function.
pub struct Function {
    pub decl: FnDecl,
    pub generics: Generics,
}

/// An associated function with a receiver.
pub struct Method {
    pub decl: FnDecl,
    pub generics: Generics,
    pub has_body: bool,
}

/// A trait definition.
pub struct Trait {
    pub items: Vec<Id>,
    pub generics: Generics,
    pub bounds: Vec<GenericBound>,
    pub is_auto: bool,
}

/// A trait alias.
pub struct TraitAlias {
    pub generics: Generics,
    pub bounds: Vec<GenericBound>,
}

/// A trait reference with its own higher-ranked parameters.
pub struct PolyTrait {
    pub trait_: Type,
    pub generic_params: Vec<GenericParamDef>,
}

/// A type alias.
pub struct Typedef {
    pub type_: Type,
    pub generics: Generics,
}

/// An opaque `impl Trait` type.
pub struct OpaqueTy {
    pub bounds: Vec<GenericBound>,
    pub generics: Generics,
}

/// A `static` item.
pub struct Static {
    pub type_: Type,
    pub mutability: Mutability,
    pub expr: String,
}

/// An associated or free constant.
pub struct Constant {
    pub type_: Type,
    pub kind: ConstantKind,
}

/// How a constant's value is known.
pub enum ConstantKind {
    /// A constant known only by its printed expression.
    TyConst { expr: String },
    /// An anonymous constant nested in a type or expression.
    Anonymous,
    /// A constant from another crate.
    Imported,
    /// A local `const` item.
    Local,
}

/// A declarative macro.
pub struct Macro {
    pub source: String,
}

/// A procedural macro.
pub struct ProcMacro {
    pub helpers: Vec<String>,
}

/// Mutability of a pointer, reference, or static.
#[derive(Clone, Copy, Debug, PartialEq, Eq)]
pub enum Mutability {
    Mut,
    Not,
}

/// How a method takes its receiver.
pub enum SelfTy {
    SelfValue,
    SelfBorrowed(Option<Lifetime>, Mutability),
    SelfExplicit(Type),
}

/// Generic parameters and `where` predicates of a declaration.
pub struct Generics {
    pub params: Vec<GenericParamDef>,
    pub where_predicates: Vec<WherePredicate>,
}

/// One declared generic parameter.
pub struct GenericParamDef {
    pub name: String,
    pub kind: GenericParamDefKind,
}

/// What a generic parameter ranges over.
pub enum GenericParamDefKind {
    Lifetime,
    Type { bounds: Vec<GenericBound>, default: Option<Type> },
    Const { type_: Type },
}

/// One `where` predicate.
pub enum WherePredicate {
    BoundPredicate { type_: Type, bounds: Vec<GenericBound> },
    RegionPredicate { lifetime: Lifetime, bounds: Vec<GenericBound> },
    /// An equality predicate; `Self = <receiver type>` is recorded this way.
    EqPredicate { lhs: Type, rhs: Type },
}

/// A bound on a generic parameter.
pub enum GenericBound {
    TraitBound(PolyTrait),
    Outlives(Lifetime),
}

/// A lifetime name.
pub struct Lifetime(pub String);

/// A function declaration in the corpus.
pub struct FnDecl {
    pub inputs: Arguments,
    pub output: FnRetTy,
    pub c_variadic: bool,
}

/// The declared arguments of a function.
pub struct Arguments {
    pub values: Vec<Argument>,
}

/// One declared argument: its name and type.
pub struct Argument {
    pub name: String,
    pub type_: Type,
}

/// A declared return type.
pub enum FnRetTy {
    Return(Type),
    DefaultReturn,
}

/// An `impl` block.
pub struct Impl {
    pub generics: Generics,
    /// `Some` for trait impls, `None` for inherent impls.
    pub trait_: Option<Type>,
    /// The receiver type the impl is for.
    pub for_: Type,
    /// Ids of the associated items.
    pub items: Vec<Id>,
    pub negative_polarity: bool,
    pub synthetic: bool,
    pub blanket_impl: Option<Type>,
}

/// A type as the corpus records it.
pub enum Type {
    /// A struct, enum, trait, or alias path, resolved to an item id.
    ResolvedPath { name: String, id: Id, args: Option<Box<GenericArgs>> },
    /// A `dyn Trait` object.
    DynTrait(Vec<PolyTrait>),
    /// A generic parameter such as `T` or `Self`.
    Generic(String),
    /// A primitive type, by its name.
    Primitive(String),
    /// A bare function-pointer type.
    FunctionPointer(Box<BareFunctionDecl>),
    Tuple(Vec<Type>),
    Slice(Box<Type>),
    /// An array together with the printed form of its length.
    Array { type_: Box<Type>, len: String },
    Never,
    Infer,
    RawPointer { mutable: bool, type_: Box<Type> },
    BorrowedRef { mutable: bool, type_: Box<Type> },
    /// `<Type as Trait>::Name`.
    QPath { name: String, self_type: Box<Type>, trait_: Box<Type> },
    /// `impl TraitA + TraitB`.
    ImplTrait(Vec<GenericBound>),
}

/// A bare function signature, as in function pointer types.
pub struct BareFunctionDecl {
    pub generic_params: Vec<GenericParamDef>,
    pub decl: FnDecl,
}

/// Generic arguments of a resolved path.
pub enum GenericArgs {
    AngleBracketed { args: Vec<GenericArg>, bindings: Vec<TypeBinding> },
    Parenthesized { inputs: Vec<Type>, output: Option<Type> },
}

/// One generic argument of a resolved path.
pub enum GenericArg {
    Lifetime(Lifetime),
    Type(Type),
    Const(Constant),
    Infer,
}

/// An associated-type binding such as `Item = u8`.
pub struct TypeBinding {
    pub name: String,
    pub binding: TypeBindingKind,
}

/// The payload of a [`TypeBinding`].
pub enum TypeBindingKind {
    Equality(Type),
    Constraint(Vec<GenericBound>),
}

impl Crate {
    /// The item stored under `id`, if any.
    pub open spec fn spec_item(&self, id: Id) -> Option<Item> {
        Self::assoc_item(self.index@, id)
    }

    /// First-match lookup in the item list.
    pub open spec fn assoc_item(entries: Seq<(Id, Item)>, id: Id) -> Option<Item>
        decreases entries.len(),
    {
        if entries.len() == 0 {
            None
        } else if entries[0].0.0@ == id.0@ {
            Some(entries[0].1)
        } else {
            Self::assoc_item(entries.drop_first(), id)
        }
    }

    /// The path summary stored under `id`, if any.
    pub open spec fn spec_path(&self, id: Id) -> Option<ItemSummary> {
        Self::assoc_path(self.paths@, id)
    }

    /// First-match lookup in the path list.
    pub open spec fn assoc_path(entries: Seq<(Id, ItemSummary)>, id: Id) -> Option<ItemSummary>
        decreases entries.len(),
    {
        if entries.len() == 0 {
            None
        } else if entries[0].0.0@ == id.0@ {
            Some(entries[0].1)
        } else {
            Self::assoc_path(entries.drop_first(), id)
        }
    }

    /// Looks an item up by id; first match wins.
    pub fn get_item(&self, id: &Id) -> (r: Option<&Item>)
        ensures
            match r {
                Some(item) => self.spec_item(*id) == Some(*item),
                None => self.spec_item(*id) is None,
            },
    {
        let mut k: usize = 0;
        proof {
            assert(self.index@.skip(0) =~= self.index@);
        }
        while k < self.index.len()
            invariant
                k <= self.index.len(),
                Self::assoc_item(self.index@.skip(k as int), *id) == self.spec_item(*id),
            decreases self.index.len() - k,
        {
            proof {
                assert(self.index@.skip(k as int)[0] == self.index@[k as int]);
                assert(self.index@.skip(k as int).drop_first() =~= self.index@.skip(k as int + 1));
            }
            if str_eq(self.index[k].0.0.as_str(), id.0.as_str()) {
                return Some(&self.index[k].1);
            }
            k = k + 1;
        }
        proof {
            assert(self.index@.skip(k as int) =~= Seq::<(Id, Item)>::empty());
        }
        None
    }

    /// Looks a path summary up by id; first match wins.
    pub fn get_path(&self, id: &Id) -> (r: Option<&ItemSummary>)
        ensures
            match r {
                Some(summary) => self.spec_path(*id) == Some(*summary),
                None => self.spec_path(*id) is None,
            },
    {
        let mut k: usize = 0;
        proof {
            assert(self.paths@.skip(0) =~= self.paths@);
        }
        while k < self.paths.len()
            invariant
                k <= self.paths.len(),
                Self::assoc_path(self.paths@.skip(k as int), *id) == self.spec_path(*id),
            decreases self.paths.len() - k,
        {
            proof {
                assert(self.paths@.skip(k as int)[0] == self.paths@[k as int]);
                assert(self.paths@.skip(k as int).drop_first() =~= self.paths@.skip(k as int + 1));
            }
            if str_eq(self.paths[k].0.0.as_str(), id.0.as_str()) {
                return Some(&self.paths[k].1);
            }
            k = k + 1;
        }
        proof {
            assert(self.paths@.skip(k as int) =~= Seq::<(Id, ItemSummary)>::empty());
        }
        None
    }
}

/// Compares two string slices character by character.
pub fn str_eq(a: &str, b: &str) -> (r: bool)
    ensures
        r == (a@ == b@),
{
    let alen = a.unicode_len();
    let blen = b.unicode_len();
    if alen != blen {
        proof {
            assert(a@.len() != b@.len());
        }
        return false;
    }
    let mut i: usize = 0;
    while i < alen
        invariant
            i <= alen,
            alen == a@.len(),
            alen == b@.len(),
            forall|j: int| 0 <= j < i ==> a@[j] == b@[j],
        decreases alen - i,
    {
        if a.get_char(i) != b.get_char(i) {
            return false;
        }
        i = i + 1;
    }
    proof {
        assert(a@ =~= b@);
    }
    true
}

} // verus!
