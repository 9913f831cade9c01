//! The parts of a parsed Rust source that the snapshot generator reads,
//! held as plain values: items, types and their paths, and the account
//! fields of Anchor context structs.
//!
//! Every `tokens` field holds the tokens of the syntax element as a token
//! stream prints them.
use vstd::prelude::*;

verus! {

/// A type; `path` is present exactly for a path type.
pub struct TypeModel {
    pub tokens: String,
    pub path: Option<PathModel>,
}

/// The path of a path type, with the tokens of the path alone (without a
/// qualified self type).
pub struct PathModel {
    pub tokens: String,
    pub leading_colon: bool,
    pub segments: Vec<SegmentModel>,
}

/// One segment of a path with its arguments.
pub struct SegmentModel {
    pub ident: String,
    pub arguments: PathArgumentsModel,
}

pub enum PathArgumentsModel {
    NoArguments,
    AngleBracketed(Vec<GenericArgumentModel>),
    Parenthesized,
}

/// A generic argument; `ty` is present exactly when the argument is a type.
pub struct GenericArgumentModel {
    pub tokens: String,
    pub ty: Option<TypeModel>,
}

/// The first input of a function.
pub enum FnInputModel {
    Receiver,
    Typed(TypeModel),
}

pub struct FnModel {
    pub name: String,
    pub first_input: Option<FnInputModel>,
}

/// A named field of a struct: its attributes as tokens, its identifier
/// and its type.
pub struct FieldModel {
    pub attrs: String,
    pub ident: String,
    pub ty: TypeModel,
}

pub enum FieldsModel {
    Named(Vec<FieldModel>),
    Unnamed,
    Unit,
}

pub struct StructModel {
    pub ident: String,
    pub fields: FieldsModel,
}

/// A module: the path of each attribute when that path is a single
/// identifier, and the inline content when there is one.
pub struct ModModel {
    pub attrs: Vec<Option<String>>,
    pub content: Option<Vec<ItemModel>>,
}

pub enum ItemModel {
    Fn(FnModel),
    Struct(StructModel),
    Mod(ModModel),
    Other,
}

/// The sysvars that an Anchor account can hold.
pub enum SysvarModel {
    Clock,
    Rent,
    EpochSchedule,
    Fees,
    RecentBlockhashes,
    SlotHashes,
    SlotHistory,
    StakeHistory,
    Instructions,
    Rewards,
}

/// The type of an Anchor account field; paths are held as tokens.
pub enum AccountTyModel {
    AccountInfo,
    UncheckedAccount,
    AccountLoader { account_type_path: String },
    Sysvar(SysvarModel),
    Account { account_type_path: String, boxed: bool },
    Program { account_type_path: String },
    Interface { account_type_path: String },
    InterfaceAccount { account_type_path: String, boxed: bool },
    Signer,
    SystemAccount,
    ProgramData,
}

/// A field of an Anchor accounts struct: a single account, or a nested
/// accounts struct. `init` and `close` tell whether the field has those
/// constraints.
pub enum AccountFieldModel {
    Field { ident: String, ty: AccountTyModel, is_optional: bool, init: bool, close: bool },
    CompositeField { ident: String, init: bool, close: bool },
}

} // verus!
