//! Reading program sources: the calls into `syn` that parse a source file
//! and into the Anchor account parser that reads an accounts-struct field,
//! with the conversion of what they give into the plain model of
//! `syntax_model`. Every item here is trusted: the conversions change the
//! type of each value one for one, and the contracts only name what the
//! parsers give.
use vstd::prelude::*;
use quote::ToTokens;
use syn::parse::Parser;
use anchor_syn::Ty;
use crate::text::without_spaces;
use crate::syntax_model::{
    AccountFieldModel, AccountTyModel, FieldModel, FieldsModel, FnInputModel, FnModel,
    GenericArgumentModel, ItemModel, ModModel, PathArgumentsModel, PathModel, SegmentModel,
    StructModel, SysvarModel, TypeModel,
};

verus! {

#[verifier::external_type_specification]
#[verifier::external_body]
pub struct ExSynItem(syn::Item);

#[verifier::external_type_specification]
#[verifier::external_body]
pub struct ExSynFnArg(syn::FnArg);

#[verifier::external_type_specification]
#[verifier::external_body]
pub struct ExSynFields(syn::Fields);

#[verifier::external_type_specification]
#[verifier::external_body]
pub struct ExSynField(syn::Field);

#[verifier::external_type_specification]
#[verifier::external_body]
pub struct ExSynType(syn::Type);

#[verifier::external_type_specification]
#[verifier::external_body]
pub struct ExSynPath(syn::Path);

#[verifier::external_type_specification]
#[verifier::external_body]
pub struct ExSynPathSegment(syn::PathSegment);

#[verifier::external_type_specification]
#[verifier::external_body]
pub struct ExSynGenericArgument(syn::GenericArgument);

#[verifier::external_type_specification]
#[verifier::external_body]
pub struct ExSynTypePath(syn::TypePath);

#[verifier::external_type_specification]
#[verifier::external_body]
pub struct ExAnchorAccountField(anchor_syn::AccountField);

#[verifier::external_type_specification]
#[verifier::external_body]
pub struct ExAnchorTy(anchor_syn::Ty);

#[verifier::external_type_specification]
#[verifier::external_body]
pub struct ExAnchorSysvarTy(anchor_syn::SysvarTy);

/// The items that `syn::parse_file` reads from a source text, in the
/// plain model, or the message of the parse error.
pub uninterp spec fn parsed_items(text: Seq<char>) -> Result<Seq<ItemModel>, Seq<char>>;

/// What the Anchor account parser makes of the accounts-struct field with
/// the attributes `attrs`, the identifier `ident` and the type `ty`, each
/// given as text, or the message of its error.
pub uninterp spec fn parsed_account(attrs: Seq<char>, ident: Seq<char>, ty: Seq<char>) -> Result<
    AccountFieldModel,
    Seq<char>,
>;

/// The type that `syn` reads from the text, in the plain model; `None`
/// when the text is not a type.
pub uninterp spec fn parsed_type(s: Seq<char>) -> Option<TypeModel>;

/// The printed tokens of the type read from the text.
pub open spec fn type_tokens(s: Seq<char>) -> Option<Seq<char>> {
    match parsed_type(s) {
        Some(t) => Some(t.tokens@),
        None => None,
    }
}

/// The identifier of the last segment of a path type.
pub open spec fn last_segment_ident(t: TypeModel) -> Option<Seq<char>> {
    match t.path {
        Some(p) => if p.segments@.len() > 0 {
            Some(p.segments@.last().ident@)
        } else {
            None
        },
        None => None,
    }
}

/// For a text read as a path type, its last segment's identifier; `None`
/// for every other text.
pub open spec fn type_path_last_ident(s: Seq<char>) -> Option<Seq<char>> {
    match parsed_type(s) {
        Some(t) => last_segment_ident(t),
        None => None,
    }
}

/// The only generic argument of the path's first segment, when it has
/// angle brackets holding exactly one.
pub open spec fn single_argument(p: PathModel) -> Option<GenericArgumentModel> {
    if p.segments@.len() > 0 {
        match p.segments@[0].arguments {
            PathArgumentsModel::AngleBracketed(args) => if args@.len() == 1 {
                Some(args@[0])
            } else {
                None
            },
            _ => None,
        }
    } else {
        None
    }
}

/// The path of a generic argument that is a path type.
pub open spec fn argument_path(a: GenericArgumentModel) -> Option<PathModel> {
    match a.ty {
        Some(t) => t.path,
        None => None,
    }
}

/// The path's first segment holds exactly one generic argument, and that
/// argument is not a path type.
pub open spec fn lone_non_path_argument(p: PathModel) -> bool {
    match single_argument(p) {
        Some(a) => argument_path(a) is None,
        None => false,
    }
}

/// The Anchor account parser panics on a field of this type: an `Option`
/// whose one argument is not a path type, or, inside the `Option` if there
/// is one, a boxed account whose one argument is not a path type. Both
/// make the parser build its error from a second argument that does not
/// exist.
pub open spec fn account_parser_panics(t: TypeModel) -> bool {
    match t.path {
        None => false,
        Some(p) => {
            let is_option = "Option<"@.is_prefix_of(without_spaces(p.tokens@));
            if is_option && lone_non_path_argument(p) {
                true
            } else {
                let inner = if is_option {
                    match single_argument(p) {
                        Some(a) => argument_path(a),
                        None => None,
                    }
                } else {
                    Some(p)
                };
                match inner {
                    Some(q) => ("Box<Account<"@.is_prefix_of(without_spaces(q.tokens@))
                        || "Box<InterfaceAccount<"@.is_prefix_of(without_spaces(q.tokens@)))
                        && lone_non_path_argument(q),
                    None => false,
                }
            }
        }
    }
}

/// The account parser reads the field of type `ty` without panicking.
pub open spec fn account_parser_safe(ty: Seq<char>) -> bool {
    match parsed_type(ty) {
        Some(t) => !account_parser_panics(t),
        None => true,
    }
}

/// Calls `syn::parse_file` on the text and converts its items into the
/// plain model; the result is the named function of the text.
#[verifier::external_body]
pub(crate) fn parse_items(text: &str) -> (r: Result<Vec<ItemModel>, String>)
    ensures
        match r {
            Ok(v) => parsed_items(text@) == Ok::<Seq<ItemModel>, Seq<char>>(v@),
            Err(e) => parsed_items(text@) == Err::<Seq<ItemModel>, Seq<char>>(e@),
        },
{
    match syn::parse_file(text) {
        Ok(f) => Ok(f.items.iter().map(item_model).collect()),
        Err(e) => Err(e.to_string()),
    }
}

/// Calls `syn::parse_str::<syn::Type>` and converts the type into the
/// plain model; the result is the named function of the text.
#[verifier::external_body]
pub(crate) fn parse_type(s: &str) -> (r: Option<TypeModel>)
    ensures
        match r {
            Some(t) => parsed_type(s@) == Some(t),
            None => parsed_type(s@) is None,
        },
{
    match syn::parse_str::<syn::Type>(s) {
        Ok(t) => Some(type_model(&t)),
        Err(_) => None,
    }
}

/// Reads `attrs ident : ty` as a named field with
/// `syn::Field::parse_named` and calls
/// `anchor_syn::parser::accounts::parse_account_field` on it, converting
/// the account field into the plain model; the result is the named
/// function of the texts. The parser panics on the types that
/// `account_parser_panics` describes, so those are left out.
#[verifier::external_body]
pub(crate) fn parse_account(attrs: &str, ident: &str, ty: &str) -> (r: Result<AccountFieldModel, String>)
    requires
        account_parser_safe(ty@),
    ensures
        match r {
            Ok(a) => parsed_account(attrs@, ident@, ty@) == Ok::<AccountFieldModel, Seq<char>>(a),
            Err(e) => parsed_account(attrs@, ident@, ty@) == Err::<AccountFieldModel, Seq<char>>(e@),
        },
{
    match syn::Field::parse_named.parse_str(&format!("{} {} : {}", attrs, ident, ty)) {
        Ok(f) => match anchor_syn::parser::accounts::parse_account_field(&f) {
            Ok(a) => Ok(account_model(a)),
            Err(e) => Err(e.to_string()),
        },
        Err(e) => Err(e.to_string()),
    }
}

/// Converts an item: functions, structs and modules are kept, every other
/// item becomes `Other`.
#[verifier::external_body]
fn item_model(item: &syn::Item) -> ItemModel {
    match item {
        syn::Item::Fn(f) => ItemModel::Fn(
            FnModel { name: f.sig.ident.to_string(), first_input: f.sig.inputs.first().map(input_model) },
        ),
        syn::Item::Struct(s) => ItemModel::Struct(
            StructModel { ident: s.ident.to_string(), fields: fields_model(&s.fields) },
        ),
        syn::Item::Mod(m) => ItemModel::Mod(ModModel {
            attrs: m.attrs.iter().map(|a| a.path.get_ident().map(|i| i.to_string())).collect(),
            content: m.content.as_ref().map(|(_, items)| items.iter().map(item_model).collect()),
        }),
        _ => ItemModel::Other,
    }
}

/// Converts a function input.
#[verifier::external_body]
fn input_model(a: &syn::FnArg) -> FnInputModel {
    match a {
        syn::FnArg::Receiver(_) => FnInputModel::Receiver,
        syn::FnArg::Typed(t) => FnInputModel::Typed(type_model(&t.ty)),
    }
}

/// Converts the fields of a struct.
#[verifier::external_body]
fn fields_model(f: &syn::Fields) -> FieldsModel {
    match f {
        syn::Fields::Named(n) => FieldsModel::Named(n.named.iter().map(field_model).collect()),
        syn::Fields::Unnamed(_) => FieldsModel::Unnamed,
        syn::Fields::Unit => FieldsModel::Unit,
    }
}

/// Converts a named field: its attributes, its identifier and its type.
#[verifier::external_body]
fn field_model(f: &syn::Field) -> FieldModel {
    FieldModel {
        attrs: f.attrs.iter().map(|a| a.to_token_stream().to_string()).collect::<Vec<_>>().join(" "),
        ident: f.ident.to_token_stream().to_string(),
        ty: type_model(&f.ty),
    }
}

/// Converts a type: its printed tokens and, for a path type, the path.
#[verifier::external_body]
fn type_model(t: &syn::Type) -> TypeModel {
    TypeModel {
        tokens: t.to_token_stream().to_string(),
        path: match t {
            syn::Type::Path(tp) => Some(path_model(&tp.path)),
            _ => None,
        },
    }
}

/// Converts a path.
#[verifier::external_body]
fn path_model(p: &syn::Path) -> PathModel {
    PathModel {
        tokens: p.to_token_stream().to_string(),
        leading_colon: p.leading_colon.is_some(),
        segments: p.segments.iter().map(segment_model).collect(),
    }
}

/// Converts a path segment and its arguments.
#[verifier::external_body]
fn segment_model(s: &syn::PathSegment) -> SegmentModel {
    let arguments = match &s.arguments {
        syn::PathArguments::None => PathArgumentsModel::NoArguments,
        syn::PathArguments::AngleBracketed(a) => PathArgumentsModel::AngleBracketed(
            a.args.iter().map(generic_argument_model).collect(),
        ),
        syn::PathArguments::Parenthesized(_) => PathArgumentsModel::Parenthesized,
    };
    SegmentModel { ident: s.ident.to_string(), arguments }
}

/// Converts a generic argument: its printed tokens and, for a type, the
/// type.
#[verifier::external_body]
fn generic_argument_model(g: &syn::GenericArgument) -> GenericArgumentModel {
    GenericArgumentModel {
        tokens: g.to_token_stream().to_string(),
        ty: match g {
            syn::GenericArgument::Type(t) => Some(type_model(t)),
            _ => None,
        },
    }
}

/// Converts an account field; its constraints are kept as whether it has
/// `init` and whether it has `close`.
#[verifier::external_body]
fn account_model(a: anchor_syn::AccountField) -> AccountFieldModel {
    match a {
        anchor_syn::AccountField::Field(f) => AccountFieldModel::Field {
            ident: f.ident.to_string(),
            ty: ty_model(&f.ty),
            is_optional: f.is_optional,
            init: f.constraints.init.is_some(),
            close: f.constraints.is_close(),
        },
        anchor_syn::AccountField::CompositeField(f) => AccountFieldModel::CompositeField {
            ident: f.ident.to_string(),
            init: f.constraints.init.is_some(),
            close: f.constraints.is_close(),
        },
    }
}

/// Converts the type of an account; account type paths become their
/// printed tokens.
#[verifier::external_body]
fn ty_model(t: &anchor_syn::Ty) -> AccountTyModel {
    match t {
        Ty::AccountInfo => AccountTyModel::AccountInfo,
        Ty::UncheckedAccount => AccountTyModel::UncheckedAccount,
        Ty::AccountLoader(a) => AccountTyModel::AccountLoader { account_type_path: path_text(&a.account_type_path) },
        Ty::Sysvar(s) => AccountTyModel::Sysvar(sysvar_model(s)),
        Ty::Account(a) => AccountTyModel::Account { account_type_path: path_text(&a.account_type_path), boxed: a.boxed },
        Ty::Program(a) => AccountTyModel::Program { account_type_path: path_text(&a.account_type_path) },
        Ty::Interface(a) => AccountTyModel::Interface { account_type_path: path_text(&a.account_type_path) },
        Ty::InterfaceAccount(a) => AccountTyModel::InterfaceAccount { account_type_path: path_text(&a.account_type_path), boxed: a.boxed },
        Ty::Signer => AccountTyModel::Signer,
        Ty::SystemAccount => AccountTyModel::SystemAccount,
        Ty::ProgramData => AccountTyModel::ProgramData,
    }
}

/// Prints the tokens of a path type.
#[verifier::external_body]
fn path_text(p: &syn::TypePath) -> String {
    p.to_token_stream().to_string()
}

/// Converts a sysvar type.
#[verifier::external_body]
fn sysvar_model(s: &anchor_syn::SysvarTy) -> SysvarModel {
    match s {
        anchor_syn::SysvarTy::Clock => SysvarModel::Clock,
        anchor_syn::SysvarTy::Rent => SysvarModel::Rent,
        anchor_syn::SysvarTy::EpochSchedule => SysvarModel::EpochSchedule,
        anchor_syn::SysvarTy::Fees => SysvarModel::Fees,
        anchor_syn::SysvarTy::RecentBlockhashes => SysvarModel::RecentBlockhashes,
        anchor_syn::SysvarTy::SlotHashes => SysvarModel::SlotHashes,
        anchor_syn::SysvarTy::SlotHistory => SysvarModel::SlotHistory,
        anchor_syn::SysvarTy::StakeHistory => SysvarModel::StakeHistory,
        anchor_syn::SysvarTy::Instructions => SysvarModel::Instructions,
        anchor_syn::SysvarTy::Rewards => SysvarModel::Rewards,
    }
}

} // verus!
