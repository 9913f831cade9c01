//! Generation of `accounts_snapshots.rs`: for each instruction of a
//! program, a snapshot of its context struct whose fields are wrapped in
//! `Option` where the account may be absent, and the code that reads the
//! snapshot back from the accounts of a transaction.
//!
//! The source is produced as token text, as in the instruction generator.
use vstd::prelude::*;
use crate::source::{
    account_parser_panics, account_parser_safe, argument_path, lone_non_path_argument, parse_account,
    parse_items, parse_type, parsed_account, parsed_items, single_argument,
};
use crate::syntax::{
    is_rust_ident, rust_ident, string_literal, string_literal_text, to_upper_camel, upper_camel,
};
use crate::syntax_model::{
    AccountFieldModel, AccountTyModel, FieldModel, FieldsModel, FnInputModel, FnModel,
    GenericArgumentModel, ItemModel, ModModel, PathArgumentsModel, PathModel, StructModel, SysvarModel,
    TypeModel,
};
use crate::text::{
    append_brace, brace, concat, join, lemma_concat_take, lemma_join_take, same_text,
    without_spaces,
};

verus! {

/// Whether one of the attribute paths is the identifier `program`.
pub open spec fn has_program_attr(attrs: Seq<Option<String>>) -> bool {
    exists|i: int| 0 <= i < attrs.len() && (#[trigger] attrs[i]) is Some && attrs[i]->0@ == "program"@
}

/// Checks if the program attribute is present.
pub fn has_program_attribute(attrs: &Vec<Option<String>>) -> (r: bool)
    ensures
        r == has_program_attr(attrs@),
{
    let program = String::from_str("program");
    let mut i: usize = 0;
    while i < attrs.len()
        invariant
            i <= attrs.len(),
            program@ == "program"@,
            forall|j: int| 0 <= j < i ==> !((#[trigger] attrs@[j]) is Some && attrs@[j]->0@ == "program"@),
        decreases attrs.len() - i,
    {
        match &attrs[i] {
            Some(a) => {
                if *a == program {
                    assert(attrs@[i as int] is Some && attrs@[i as int]->0@ == "program"@);
                    return true;
                }
            },
            None => {},
        }
        i = i + 1;
    }
    false
}

/// Whether the account is boxed: accounts and interface accounts can be.
pub open spec fn boxed(ty: AccountTyModel) -> bool {
    match ty {
        AccountTyModel::Account { boxed, .. } => boxed,
        AccountTyModel::InterfaceAccount { boxed, .. } => boxed,
        _ => false,
    }
}

pub fn is_boxed(ty: &AccountTyModel) -> (r: bool)
    ensures
        r == boxed(*ty),
{
    match ty {
        AccountTyModel::Account { boxed, .. } => *boxed,
        AccountTyModel::InterfaceAccount { boxed, .. } => *boxed,
        _ => false,
    }
}

/// An account is optional when it has the `init` or `close` constraint,
/// or when it is declared as an `Option`.
pub open spec fn optional(f: AccountFieldModel) -> bool {
    match f {
        AccountFieldModel::Field { is_optional, init, close, .. } => init || close || is_optional,
        AccountFieldModel::CompositeField { init, close, .. } => init || close,
    }
}

/// Determines if an account should be wrapped into the `Option` type.
pub fn is_optional(f: &AccountFieldModel) -> (r: bool)
    ensures
        r == optional(*f),
{
    match f {
        AccountFieldModel::Field { is_optional, init, close, .. } => *init || *close || *is_optional,
        AccountFieldModel::CompositeField { init, close, .. } => *init || *close,
    }
}

/// The type inside `Box<..>` or `Option<..>`: the first generic argument
/// of the last path segment, when that segment is `Box` or `Option` and
/// the argument is a type.
pub open spec fn inner_type(t: TypeModel) -> Option<TypeModel> {
    match t.path {
        Some(p) => if p.segments@.len() > 0 {
            let seg = p.segments@.last();
            if seg.ident@ == "Box"@ || seg.ident@ == "Option"@ {
                match seg.arguments {
                    PathArgumentsModel::AngleBracketed(args) => if args@.len() > 0 {
                        args@[0].ty
                    } else {
                        None
                    },
                    _ => None,
                }
            } else {
                None
            }
        } else {
            None
        },
        None => None,
    }
}

pub fn extract_inner_type(t: &TypeModel) -> (r: Option<&TypeModel>)
    ensures
        match r {
            Some(x) => inner_type(*t) == Some(*x),
            None => inner_type(*t) is None,
        },
{
    match &t.path {
        Some(p) => {
            if p.segments.len() == 0 {
                return None;
            }
            let seg = &p.segments[p.segments.len() - 1];
            if seg.ident == String::from_str("Box") || seg.ident == String::from_str("Option") {
                match &seg.arguments {
                    PathArgumentsModel::AngleBracketed(args) => {
                        if args.len() > 0 {
                            match &args[0].ty {
                                Some(inner) => Some(inner),
                                None => None,
                            }
                        } else {
                            None
                        }
                    },
                    _ => None,
                }
            } else {
                None
            }
        },
        None => None,
    }
}

/// The name of a sysvar type.
pub open spec fn sysvar_name(s: SysvarModel) -> Seq<char> {
    match s {
        SysvarModel::Clock => "Clock"@,
        SysvarModel::Rent => "Rent"@,
        SysvarModel::EpochSchedule => "EpochSchedule"@,
        SysvarModel::Fees => "Fees"@,
        SysvarModel::RecentBlockhashes => "RecentBlockhashes"@,
        SysvarModel::SlotHashes => "SlotHashes"@,
        SysvarModel::SlotHistory => "SlotHistory"@,
        SysvarModel::StakeHistory => "StakeHistory"@,
        SysvarModel::Instructions => "Instructions"@,
        SysvarModel::Rewards => "Rewards"@,
    }
}

/// Gets the identifier (name) of the passed sysvar type.
pub fn sysvar_to_ident(s: &SysvarModel) -> (r: String)
    ensures
        r@ == sysvar_name(*s),
{
    match s {
        SysvarModel::Clock => String::from_str("Clock"),
        SysvarModel::Rent => String::from_str("Rent"),
        SysvarModel::EpochSchedule => String::from_str("EpochSchedule"),
        SysvarModel::Fees => String::from_str("Fees"),
        SysvarModel::RecentBlockhashes => String::from_str("RecentBlockhashes"),
        SysvarModel::SlotHashes => String::from_str("SlotHashes"),
        SysvarModel::SlotHistory => String::from_str("SlotHistory"),
        SysvarModel::StakeHistory => String::from_str("StakeHistory"),
        SysvarModel::Instructions => String::from_str("Instructions"),
        SysvarModel::Rewards => String::from_str("Rewards"),
    }
}

/// The type of an account and the function that deserializes it, as
/// tokens; `None` for raw account infos, unchecked accounts and program
/// data.
pub open spec fn ty_tokens(ty: AccountTyModel) -> Option<(Seq<char>, Seq<char>)> {
    match ty {
        AccountTyModel::AccountInfo => None,
        AccountTyModel::UncheckedAccount => None,
        AccountTyModel::ProgramData => None,
        AccountTyModel::SystemAccount => Some(
            (
                "SystemAccount < '_ >"@,
                "anchor_lang :: accounts :: system_account :: SystemAccount :: try_from"@,
            ),
        ),
        AccountTyModel::Sysvar(s) => Some(
            (
                "Sysvar < "@ + sysvar_name(s) + " >"@,
                "anchor_lang :: accounts :: sysvar :: Sysvar :: from_account_info"@,
            ),
        ),
        AccountTyModel::Signer => Some(
            ("Signer < '_ >"@, "anchor_lang :: accounts :: signer :: Signer :: try_from"@),
        ),
        AccountTyModel::Account { account_type_path, .. } => Some(
            (
                "anchor_lang :: accounts :: account :: Account < "@ + account_type_path@ + " >"@,
                "anchor_lang :: accounts :: account :: Account :: try_from"@,
            ),
        ),
        AccountTyModel::AccountLoader { account_type_path } => Some(
            (
                "anchor_lang :: accounts :: account_loader :: AccountLoader < "@
                    + account_type_path@ + " >"@,
                "anchor_lang :: accounts :: account_loader :: AccountLoader :: try_from"@,
            ),
        ),
        AccountTyModel::Program { account_type_path } => Some(
            (
                "anchor_lang :: accounts :: program :: Program < "@ + account_type_path@ + " >"@,
                "anchor_lang :: accounts :: program :: Program :: try_from"@,
            ),
        ),
        AccountTyModel::Interface { account_type_path } => Some(
            (
                "anchor_lang :: accounts :: interface :: Interface < "@ + account_type_path@
                    + " >"@,
                "anchor_lang :: accounts :: interface :: Interface :: try_from"@,
            ),
        ),
        AccountTyModel::InterfaceAccount { account_type_path, .. } => Some(
            (
                "anchor_lang :: accounts :: interface_account :: InterfaceAccount < "@
                    + account_type_path@ + " >"@,
                "anchor_lang :: accounts :: interface_account :: InterfaceAccount :: try_from"@,
            ),
        ),
    }
}

/// Converts the account type to tokens: the type itself and the fully
/// qualified function that deserializes it.
pub fn ty_to_tokens(ty: &AccountTyModel) -> (r: Option<(String, String)>)
    ensures
        match r {
            Some(p) => ty_tokens(*ty) == Some((p.0@, p.1@)),
            None => ty_tokens(*ty) is None,
        },
{
    match ty {
        AccountTyModel::AccountInfo => None,
        AccountTyModel::UncheckedAccount => None,
        AccountTyModel::ProgramData => None,
        AccountTyModel::SystemAccount => Some(
            (
                String::from_str("SystemAccount < '_ >"),
                String::from_str(
                    "anchor_lang :: accounts :: system_account :: SystemAccount :: try_from",
                ),
            ),
        ),
        AccountTyModel::Sysvar(s) => {
            let id = sysvar_to_ident(s);
            let t = String::from_str("Sysvar < ").concat(id.as_str()).concat(" >");
            Some(
                (
                    t,
                    String::from_str(
                        "anchor_lang :: accounts :: sysvar :: Sysvar :: from_account_info",
                    ),
                ),
            )
        },
        AccountTyModel::Signer => Some(
            (
                String::from_str("Signer < '_ >"),
                String::from_str("anchor_lang :: accounts :: signer :: Signer :: try_from"),
            ),
        ),
        AccountTyModel::Account { account_type_path, .. } => {
            let t = String::from_str("anchor_lang :: accounts :: account :: Account < ").concat(
                account_type_path.as_str(),
            ).concat(" >");
            Some(
                (t, String::from_str("anchor_lang :: accounts :: account :: Account :: try_from")),
            )
        },
        AccountTyModel::AccountLoader { account_type_path } => {
            let t = String::from_str(
                "anchor_lang :: accounts :: account_loader :: AccountLoader < ",
            ).concat(account_type_path.as_str()).concat(" >");
            Some(
                (
                    t,
                    String::from_str(
                        "anchor_lang :: accounts :: account_loader :: AccountLoader :: try_from",
                    ),
                ),
            )
        },
        AccountTyModel::Program { account_type_path } => {
            let t = String::from_str("anchor_lang :: accounts :: program :: Program < ").concat(
                account_type_path.as_str(),
            ).concat(" >");
            Some(
                (t, String::from_str("anchor_lang :: accounts :: program :: Program :: try_from")),
            )
        },
        AccountTyModel::Interface { account_type_path } => {
            let t = String::from_str(
                "anchor_lang :: accounts :: interface :: Interface < ",
            ).concat(account_type_path.as_str()).concat(" >");
            Some(
                (
                    t,
                    String::from_str("anchor_lang :: accounts :: interface :: Interface :: try_from"),
                ),
            )
        },
        AccountTyModel::InterfaceAccount { account_type_path, .. } => {
            let t = String::from_str(
                "anchor_lang :: accounts :: interface_account :: InterfaceAccount < ",
            ).concat(account_type_path.as_str()).concat(" >");
            Some(
                (
                    t,
                    String::from_str(
                        "anchor_lang :: accounts :: interface_account :: InterfaceAccount :: try_from",
                    ),
                ),
            )
        },
    }
}

/// Takes the next account of the iterator, failing when none is left.
pub open spec fn next_account_text(name: Seq<char>) -> Seq<char> {
    "accounts_iter . next () . ok_or (FuzzingError :: NotEnoughAccounts ("@ + string_literal_text(name)
        + " . to_string ())) ? . as_ref ()"@
}

/// Fails when the account was not provided.
pub open spec fn account_required_text(name: Seq<char>) -> Seq<char> {
    " . ok_or (FuzzingError :: AccountNotFound ("@ + string_literal_text(name) + " . to_string ())) ?"@
}

/// Reads an account of a type that can be deserialized.
pub open spec fn deserialize_account_text(
    name: Seq<char>,
    is_optional: bool,
    return_type: Seq<char>,
    deser_method: Seq<char>,
) -> Seq<char> {
    if is_optional {
        "let "@ + name + " : Option < "@ + return_type + " > = "@ + next_account_text(name)
            + " . map (| acc | { if acc . key () != PROGRAM_ID { "@ + deser_method
            + " (acc) . map_err (| _ | FuzzingError :: CannotDeserializeAccount ("@ + string_literal_text(name)
            + " . to_string ())) } else { Err (FuzzingError :: OptionalAccountNotProvided ("@
            + string_literal_text(name) + " . to_string () ,)) } }) . transpose () . unwrap_or (None) ;"@
    } else {
        "let "@ + name + " : "@ + return_type + " = "@ + next_account_text(name) + " . map ("@
            + deser_method + ")"@ + account_required_text(name)
            + " . map_err (| _ | FuzzingError :: CannotDeserializeAccount ("@ + string_literal_text(name)
            + " . to_string ())) ? ;"@
    }
}

/// Reads a raw account info.
pub open spec fn acc_info_text(name: Seq<char>, is_optional: bool) -> Seq<char> {
    if is_optional {
        "let "@ + name + " = "@ + next_account_text(name) + " ;"@
    } else {
        "let "@ + name + " = "@ + next_account_text(name) + account_required_text(name) + " ;"@
    }
}

/// Reads an unchecked account.
pub open spec fn acc_unchecked_text(name: Seq<char>, is_optional: bool) -> Seq<char> {
    if is_optional {
        "let "@ + name + " = "@ + next_account_text(name)
            + " . map (anchor_lang :: accounts :: unchecked_account :: UncheckedAccount :: try_from)"@
            + " ;"@
    } else {
        "let "@ + name + " = "@ + next_account_text(name)
            + " . map (anchor_lang :: accounts :: unchecked_account :: UncheckedAccount :: try_from)"@
            + account_required_text(name) + " ;"@
    }
}

fn append_next_account(s: &mut String, name: &str)
    ensures
        final(s)@ == old(s)@ + next_account_text(name@),
{
    let lit = string_literal(name);
    s.append("accounts_iter . next () . ok_or (FuzzingError :: NotEnoughAccounts (");
    s.append(lit.as_str());
    s.append(" . to_string ())) ? . as_ref ()");
}

fn append_account_required(s: &mut String, name: &str)
    ensures
        final(s)@ == old(s)@ + account_required_text(name@),
{
    let lit = string_literal(name);
    s.append(" . ok_or (FuzzingError :: AccountNotFound (");
    s.append(lit.as_str());
    s.append(" . to_string ())) ?");
}

/// Generates the code that deserializes an account.
fn deserialize_account_tokens(
    name: &str,
    is_optional: bool,
    return_type: &str,
    deser_method: &str,
) -> (s: String)
    ensures
        s@ == deserialize_account_text(name@, is_optional, return_type@, deser_method@),
{
    let lit = string_literal(name);
    let mut s = String::from_str("let ");
    s.append(name);
    if is_optional {
        s.append(" : Option < ");
        s.append(return_type);
        s.append(" > = ");
        append_next_account(&mut s, name);
        s.append(" . map (| acc | { if acc . key () != PROGRAM_ID { ");
        s.append(deser_method);
        s.append(" (acc) . map_err (| _ | FuzzingError :: CannotDeserializeAccount (");
        s.append(lit.as_str());
        s.append(" . to_string ())) } else { Err (FuzzingError :: OptionalAccountNotProvided (");
        s.append(lit.as_str());
        s.append(" . to_string () ,)) } }) . transpose () . unwrap_or (None) ;");
    } else {
        s.append(" : ");
        s.append(return_type);
        s.append(" = ");
        append_next_account(&mut s, name);
        s.append(" . map (");
        s.append(deser_method);
        s.append(")");
        append_account_required(&mut s, name);
        s.append(" . map_err (| _ | FuzzingError :: CannotDeserializeAccount (");
        s.append(lit.as_str());
        s.append(" . to_string ())) ? ;");
    }
    s
}

/// Generates the code that reads a raw account info.
fn acc_info_tokens(name: &str, is_optional: bool) -> (s: String)
    ensures
        s@ == acc_info_text(name@, is_optional),
{
    let mut s = String::from_str("let ");
    s.append(name);
    s.append(" = ");
    append_next_account(&mut s, name);
    if !is_optional {
        append_account_required(&mut s, name);
    }
    s.append(" ;");
    s
}

/// Generates the code that reads an unchecked account.
fn acc_unchecked_tokens(name: &str, is_optional: bool) -> (s: String)
    ensures
        s@ == acc_unchecked_text(name@, is_optional),
{
    let mut s = String::from_str("let ");
    s.append(name);
    s.append(" = ");
    append_next_account(&mut s, name);
    s.append(
        " . map (anchor_lang :: accounts :: unchecked_account :: UncheckedAccount :: try_from)",
    );
    if !is_optional {
        append_account_required(&mut s, name);
    }
    s.append(" ;");
    s
}

/// What the account parser makes of a field.
pub open spec fn field_account(f: FieldModel) -> Result<AccountFieldModel, Seq<char>> {
    parsed_account(f.attrs@, f.ident@, f.ty.tokens@)
}

/// What the account parser made of each of the fields, which it all read.
pub open spec fn parsed_accounts(fields: Seq<FieldModel>) -> Seq<AccountFieldModel> {
    Seq::new(fields.len(), |i: int| field_account(fields[i])->Ok_0)
}

pub open spec fn account_ident(f: AccountFieldModel) -> Seq<char> {
    match f {
        AccountFieldModel::Field { ident, .. } => ident@,
        AccountFieldModel::CompositeField { ident, .. } => ident@,
    }
}

/// The statement that reads one field of a snapshot; a nested accounts
/// struct is left to the user as `todo!()`.
pub open spec fn field_deser_text(f: AccountFieldModel) -> Seq<char> {
    match f {
        AccountFieldModel::Field { ident, ty, .. } => match ty_tokens(ty) {
            Some(p) => deserialize_account_text(ident@, optional(f), p.0, p.1),
            None => if ty is UncheckedAccount {
                acc_unchecked_text(ident@, optional(f))
            } else {
                acc_info_text(ident@, optional(f))
            },
        },
        AccountFieldModel::CompositeField { ident, .. } => "let "@ + ident@ + " = todo ! () ;"@,
    }
}

pub open spec fn field_deser_items(accounts: Seq<AccountFieldModel>) -> Seq<Seq<char>> {
    Seq::new(accounts.len(), |i: int| field_deser_text(accounts[i]) + " "@)
}

pub open spec fn field_ident_items(accounts: Seq<AccountFieldModel>) -> Seq<Seq<char>> {
    Seq::new(accounts.len(), |i: int| account_ident(accounts[i]))
}

/// The implementation that reads a snapshot from the accounts, field by
/// field in order.
pub open spec fn deser_impl_text(name: Seq<char>, accounts: Seq<AccountFieldModel>) -> Seq<char> {
    "impl < 'info > "@ + name
        + " < 'info > { pub fn deserialize_option (accounts : & 'info mut [Option < AccountInfo < 'info > >] ,) -> core :: result :: Result < Self , FuzzingError > { let mut accounts_iter = accounts . iter () ; "@
        + concat(field_deser_items(accounts)) + "Ok (Self "@ + brace(
        join(field_ident_items(accounts), " , "@),
    ) + ") } }"@
}

fn field_deser(f: &AccountFieldModel) -> (s: String)
    ensures
        s@ == field_deser_text(*f),
{
    let opt = is_optional(f);
    match f {
        AccountFieldModel::Field { ident, ty, .. } => match ty_to_tokens(ty) {
            Some(p) => deserialize_account_tokens(ident.as_str(), opt, p.0.as_str(), p.1.as_str()),
            None => match ty {
                AccountTyModel::UncheckedAccount => acc_unchecked_tokens(ident.as_str(), opt),
                _ => acc_info_tokens(ident.as_str(), opt),
            },
        },
        AccountFieldModel::CompositeField { ident, .. } => {
            let mut s = String::from_str("let ");
            s.append(ident.as_str());
            s.append(" = todo ! () ;");
            s
        },
    }
}

fn account_name(f: &AccountFieldModel) -> (r: &String)
    ensures
        r@ == account_ident(*f),
{
    match f {
        AccountFieldModel::Field { ident, .. } => ident,
        AccountFieldModel::CompositeField { ident, .. } => ident,
    }
}

/// Generates the code that deserializes the snapshot struct `name`
/// from the account fields, in order.
fn deserialize_ctx_struct_anchor(name: &str, accounts: &Vec<AccountFieldModel>) -> (s: String)
    ensures
        s@ == deser_impl_text(name@, accounts@),
{
    let ghost desers = field_deser_items(accounts@);
    let ghost names = field_ident_items(accounts@);
    let mut d = String::new();
    let mut n = String::new();
    let mut i: usize = 0;
    while i < accounts.len()
        invariant
            i <= accounts.len(),
            desers == field_deser_items(accounts@),
            names == field_ident_items(accounts@),
            d@ == concat(desers.take(i as int)),
            n@ == join(names.take(i as int), " , "@),
        decreases accounts.len() - i,
    {
        proof {
            lemma_concat_take(desers, i as int);
            lemma_join_take(names, " , "@, i as int);
        }
        let af = &accounts[i];
        let t = field_deser(af);
        d.append(t.as_str());
        d.append(" ");
        if i > 0 {
            n.append(" , ");
        }
        n.append(account_name(af).as_str());
        i = i + 1;
    }
    assert(desers.take(accounts.len() as int) =~= desers);
    assert(names.take(accounts.len() as int) =~= names);
    let mut s = String::from_str("impl < 'info > ");
    s.append(name);
    s.append(
        " < 'info > { pub fn deserialize_option (accounts : & 'info mut [Option < AccountInfo < 'info > >] ,) -> core :: result :: Result < Self , FuzzingError > { let mut accounts_iter = accounts . iter () ; ",
    );
    s.append(d.as_str());
    s.append("Ok (Self ");
    append_brace(&mut s, &n);
    s.append(") } }");
    s
}

/// Whether `prefix` starts the text `t` once its spaces are removed.
pub fn starts_with_ignoring_spaces(t: &str, prefix: &str) -> (r: bool)
    ensures
        r == prefix@.is_prefix_of(without_spaces(t@)),
{
    let n = t.unicode_len();
    let mut chars: Vec<char> = Vec::new();
    let mut i: usize = 0;
    while i < n
        invariant
            n == t@.len(),
            i <= n,
            chars@ == without_spaces(t@.take(i as int)),
        decreases n - i,
    {
        let c = t.get_char(i);
        proof {
            let tk = t@.take(i + 1);
            assert(tk.drop_last() =~= t@.take(i as int));
            assert(tk.last() == c);
        }
        if c != ' ' {
            chars.push(c);
        }
        i = i + 1;
    }
    assert(t@.take(n as int) =~= t@);
    let m = prefix.unicode_len();
    if m > chars.len() {
        return false;
    }
    let mut k: usize = 0;
    while k < m
        invariant
            m == prefix@.len(),
            m <= chars@.len(),
            chars@ == without_spaces(t@),
            k <= m,
            forall|j: int| 0 <= j < k ==> prefix@[j] == chars@[j],
        decreases m - k,
    {
        if prefix.get_char(k) != chars[k] {
            return false;
        }
        k = k + 1;
    }
    true
}

/// `t` itself, or the type inside it when it is `Box<..>` or `Option<..>`.
pub open spec fn unwrap_inner(t: TypeModel) -> TypeModel {
    match inner_type(t) {
        Some(i) => i,
        None => t,
    }
}

/// The type of a snapshot field: the declared type without its `Option`
/// when the account is optional, and without its `Box` when it is boxed.
pub open spec fn snapshot_field_type(field: FieldModel, account: AccountFieldModel) -> TypeModel {
    match account {
        AccountFieldModel::Field { is_optional, ty, .. } => {
            let t1 = if is_optional {
                unwrap_inner(field.ty)
            } else {
                field.ty
            };
            if boxed(ty) {
                unwrap_inner(t1)
            } else {
                t1
            }
        },
        AccountFieldModel::CompositeField { .. } => field.ty,
    }
}

/// Whether the snapshot field holds a raw account info.
pub open spec fn holds_account_info(field: FieldModel, account: AccountFieldModel) -> bool {
    match account {
        AccountFieldModel::Field { .. } => "AccountInfo<"@.is_prefix_of(
            without_spaces(snapshot_field_type(field, account).tokens@),
        ),
        AccountFieldModel::CompositeField { .. } => false,
    }
}

/// One snapshot field, from the struct field and the account parsed from
/// it: optional accounts are wrapped in `Option`, account infos are
/// borrowed for `'info`.
pub open spec fn field_wrapper_text(field: FieldModel, account: AccountFieldModel) -> Seq<char> {
    let n = field.ident@;
    let t = snapshot_field_type(field, account).tokens@;
    let opt = optional(account);
    let info = holds_account_info(field, account);
    if opt && info {
        "pub "@ + n + " : Option < & 'info "@ + t + " > ,"@
    } else if opt {
        "pub "@ + n + " : Option < "@ + t + " > ,"@
    } else if info {
        "pub "@ + n + " : & 'info "@ + t + " ,"@
    } else {
        "pub "@ + n + " : "@ + t + " ,"@
    }
}

/// How many fields are paired with an account: the shorter of the two.
pub open spec fn zip_len(fields: Seq<FieldModel>, accounts: Seq<AccountFieldModel>) -> int {
    if fields.len() < accounts.len() {
        fields.len() as int
    } else {
        accounts.len() as int
    }
}

/// The snapshot fields, one for each field paired with its account.
pub open spec fn field_wrapper_items(
    fields: Seq<FieldModel>,
    accounts: Seq<AccountFieldModel>,
) -> Seq<Seq<char>> {
    Seq::new(zip_len(fields, accounts) as nat, |i: int| field_wrapper_text(fields[i], accounts[i]))
}

/// The snapshot struct `name`.
pub open spec fn snapshot_struct_text(
    name: Seq<char>,
    fields: Seq<FieldModel>,
    accounts: Seq<AccountFieldModel>,
) -> Seq<char> {
    "pub struct "@ + name + " < 'info > "@ + brace(join(field_wrapper_items(fields, accounts), " "@))
}

/// The warning for a field that is a nested accounts struct, whose
/// reading is left to the user.
pub open spec fn composite_warning(context: Seq<char>, field: FieldModel) -> Seq<char> {
    "\x1b[1;93mWarning\x1b[0m: The context `"@ + context + "` has a field named `"@ + field.ident@
        + "` of composite type `"@ + field.ty.tokens@
        + "`. The automatic deserialization of composite types is currently not supported. You will have to implement it manually in the generated `accounts_snapshots.rs` file. The field deserialization was replaced by a `todo!()` macro. Also, you might want to adapt the corresponding FuzzInstruction variants in `fuzz_instructions.rs` file."@
}

/// The warnings for the nested accounts structs among the first `n`
/// paired fields, in order.
pub open spec fn warnings_upto(
    context: Seq<char>,
    fields: Seq<FieldModel>,
    accounts: Seq<AccountFieldModel>,
    n: nat,
) -> Seq<Seq<char>>
    decreases n,
{
    if n == 0 {
        Seq::empty()
    } else {
        let w = warnings_upto(context, fields, accounts, (n - 1) as nat);
        if accounts[n - 1] is CompositeField {
            w.push(composite_warning(context, fields[n - 1]))
        } else {
            w
        }
    }
}

/// The warnings for the nested accounts structs among the paired fields.
pub open spec fn snapshot_warnings(
    context: Seq<char>,
    fields: Seq<FieldModel>,
    accounts: Seq<AccountFieldModel>,
) -> Seq<Seq<char>> {
    warnings_upto(context, fields, accounts, zip_len(fields, accounts) as nat)
}

/// The snapshot type of a single account does not depend on its `init`
/// and `close` constraints, and a boxed account loses its `Box`: declared
/// as `Box<X>` it gets `X`, and declared as `Option<Box<X>>` when it is an
/// optional account it gets `X` too, the type that its deserialization
/// reads. An optional account that is not boxed loses its `Option`, any
/// other account keeps its declared type, and so does a nested accounts
/// struct.
pub proof fn lemma_snapshot_type_unboxed(
    field: FieldModel,
    ident: String,
    ty: AccountTyModel,
    is_optional: bool,
    init: bool,
    close: bool,
    other_init: bool,
    other_close: bool,
    boxed_type: TypeModel,
    inner: TypeModel,
)
    ensures
        snapshot_field_type(
            field,
            (AccountFieldModel::Field { ident, ty, is_optional, init, close }),
        ) == snapshot_field_type(
            field,
            (AccountFieldModel::Field { ident, ty, is_optional, init: other_init, close: other_close }),
        ),
        boxed(ty) && !is_optional && inner_type(field.ty) == Some(inner) ==> snapshot_field_type(
            field,
            (AccountFieldModel::Field { ident, ty, is_optional, init, close }),
        ) == inner,
        boxed(ty) && is_optional && inner_type(field.ty) == Some(boxed_type) && inner_type(
            boxed_type,
        ) == Some(inner) ==> snapshot_field_type(
            field,
            (AccountFieldModel::Field { ident, ty, is_optional, init, close }),
        ) == inner,
        !boxed(ty) && is_optional && inner_type(field.ty) == Some(inner) ==> snapshot_field_type(
            field,
            (AccountFieldModel::Field { ident, ty, is_optional, init, close }),
        ) == inner,
        !boxed(ty) && !is_optional ==> snapshot_field_type(
            field,
            (AccountFieldModel::Field { ident, ty, is_optional, init, close }),
        ) == field.ty,
        snapshot_field_type(field, (AccountFieldModel::CompositeField { ident, init, close }))
            == field.ty,
{
}

fn snapshot_field_type_of<'a>(field: &'a FieldModel, account: &AccountFieldModel) -> (t: &'a TypeModel)
    ensures
        *t == snapshot_field_type(*field, *account),
{
    match account {
        AccountFieldModel::Field { is_optional, ty, .. } => {
            let mut t = &field.ty;
            if *is_optional {
                match extract_inner_type(t) {
                    Some(inner) => {
                        t = inner;
                    },
                    None => {},
                }
            }
            if is_boxed(ty) {
                match extract_inner_type(t) {
                    Some(inner) => {
                        t = inner;
                    },
                    None => {},
                }
            }
            t
        },
        _ => &field.ty,
    }
}

fn field_wrapper(field: &FieldModel, account: &AccountFieldModel) -> (s: String)
    ensures
        s@ == field_wrapper_text(*field, *account),
{
    let t = snapshot_field_type_of(field, account);
    let info = match account {
        AccountFieldModel::Field { .. } => starts_with_ignoring_spaces(
            t.tokens.as_str(),
            "AccountInfo<",
        ),
        AccountFieldModel::CompositeField { .. } => false,
    };
    let opt = is_optional(account);
    let mut s = String::from_str("pub ");
    s.append(field.ident.as_str());
    if opt && info {
        s.append(" : Option < & 'info ");
        s.append(t.tokens.as_str());
        s.append(" > ,");
    } else if opt {
        s.append(" : Option < ");
        s.append(t.tokens.as_str());
        s.append(" > ,");
    } else if info {
        s.append(" : & 'info ");
        s.append(t.tokens.as_str());
        s.append(" ,");
    } else {
        s.append(" : ");
        s.append(t.tokens.as_str());
        s.append(" ,");
    }
    s
}

fn composite_warning_for(context: &str, field: &FieldModel) -> (s: String)
    ensures
        s@ == composite_warning(context@, *field),
{
    let mut s = String::from_str("\x1b[1;93mWarning\x1b[0m: The context `");
    s.append(context);
    s.append("` has a field named `");
    s.append(field.ident.as_str());
    s.append("` of composite type `");
    s.append(field.ty.tokens.as_str());
    s.append(
        "`. The automatic deserialization of composite types is currently not supported. You will have to implement it manually in the generated `accounts_snapshots.rs` file. The field deserialization was replaced by a `todo!()` macro. Also, you might want to adapt the corresponding FuzzInstruction variants in `fuzz_instructions.rs` file.",
    );
    s
}

/// Creates the snapshot struct `name` from the fields of the context
/// struct `context` paired with the accounts parsed from them, and
/// appends a warning to `warnings` for each nested accounts struct.
fn create_snapshot_struct(
    name: &str,
    context: &str,
    fields: &Vec<FieldModel>,
    accounts: &Vec<AccountFieldModel>,
    warnings: &mut Vec<String>,
) -> (s: String)
    ensures
        s@ == snapshot_struct_text(name@, fields@, accounts@),
        final(warnings)@.map_values(|w: String| w@) == old(warnings)@.map_values(|w: String| w@)
            + snapshot_warnings(context@, fields@, accounts@),
{
    let ghost parts = field_wrapper_items(fields@, accounts@);
    let ghost start = warnings@.map_values(|w: String| w@);
    let n: usize = if fields.len() < accounts.len() {
        fields.len()
    } else {
        accounts.len()
    };
    let mut inner = String::new();
    let mut i: usize = 0;
    assert(start + warnings_upto(context@, fields@, accounts@, 0) =~= start);
    while i < n
        invariant
            i <= n,
            n == zip_len(fields@, accounts@),
            parts == field_wrapper_items(fields@, accounts@),
            inner@ == join(parts.take(i as int), " "@),
            warnings@.map_values(|w: String| w@) == start + warnings_upto(
                context@,
                fields@,
                accounts@,
                i as nat,
            ),
        decreases n - i,
    {
        proof {
            lemma_join_take(parts, " "@, i as int);
        }
        if i > 0 {
            inner.append(" ");
        }
        let w = field_wrapper(&fields[i], &accounts[i]);
        inner.append(w.as_str());
        let composite = match &accounts[i] {
            AccountFieldModel::CompositeField { .. } => true,
            _ => false,
        };
        let ghost before = warnings@.map_values(|w: String| w@);
        if composite {
            let msg = composite_warning_for(context, &fields[i]);
            warnings.push(msg);
            assert(warnings@.map_values(|w: String| w@) =~= before.push(msg@));
        }
        proof {
            if composite {
                assert(start + warnings_upto(context@, fields@, accounts@, (i + 1) as nat) =~= (start
                    + warnings_upto(context@, fields@, accounts@, i as nat)).push(
                    composite_warning(context@, fields@[i as int]),
                ));
            }
        }
        i = i + 1;
    }
    assert(parts.take(n as int) =~= parts);
    let mut s = String::from_str("pub struct ");
    s.append(name);
    s.append(" < 'info > ");
    append_brace(&mut s, &inner);
    s
}

/// The first struct named `name` among `items` from position `i` on.
pub open spec fn struct_from(items: Seq<ItemModel>, name: Seq<char>, i: int) -> Option<StructModel>
    decreases items.len() - i,
{
    if i < 0 || i >= items.len() {
        None
    } else {
        match items[i] {
            ItemModel::Struct(st) => if st.ident@ == name {
                Some(st)
            } else {
                struct_from(items, name, i + 1)
            },
            _ => struct_from(items, name, i + 1),
        }
    }
}

/// The struct named `name`: first among `items` themselves, then, module
/// by module, inside the inline modules.
pub open spec fn find_struct(items: Seq<ItemModel>, name: Seq<char>) -> Option<StructModel>
    decreases items, 1nat, 0nat,
{
    match struct_from(items, name, 0) {
        Some(st) => Some(st),
        None => find_in_modules(items, name, 0),
    }
}

/// The struct named `name` inside the inline modules among `items` from
/// position `i` on.
pub open spec fn find_in_modules(items: Seq<ItemModel>, name: Seq<char>, i: int) -> Option<
    StructModel,
>
    decreases items, 0nat, items.len() - i,
{
    if i < 0 || i >= items.len() {
        None
    } else {
        match items[i] {
            ItemModel::Mod(m) => match m.content {
                Some(c) => {
                    let r = find_struct(c@, name);
                    if r is Some {
                        r
                    } else {
                        find_in_modules(items, name, i + 1)
                    }
                },
                None => find_in_modules(items, name, i + 1),
            },
            _ => find_in_modules(items, name, i + 1),
        }
    }
}

/// The item is a struct named `name`.
pub open spec fn names_struct(item: ItemModel, name: Seq<char>) -> bool {
    match item {
        ItemModel::Struct(st) => st.ident@ == name,
        _ => false,
    }
}

/// A struct found among `items` from position `i` on is named `name`.
proof fn lemma_struct_from_named(items: Seq<ItemModel>, name: Seq<char>, i: int)
    ensures
        struct_from(items, name, i) matches Some(st) ==> st.ident@ == name,
    decreases items.len() - i,
{
    if 0 <= i < items.len() {
        lemma_struct_from_named(items, name, i + 1);
    }
}

/// A struct named `name` at position `k` is found from any earlier
/// position on.
proof fn lemma_struct_from_finds(items: Seq<ItemModel>, name: Seq<char>, i: int, k: int)
    requires
        0 <= i <= k < items.len(),
        names_struct(items[k], name),
    ensures
        struct_from(items, name, i) is Some,
    decreases k - i,
{
    if i < k {
        lemma_struct_from_finds(items, name, i + 1, k);
    }
}

/// The first struct named `name` from position `i` on is the one found.
proof fn lemma_struct_from_first(items: Seq<ItemModel>, name: Seq<char>, i: int, k: int)
    requires
        0 <= i <= k < items.len(),
        names_struct(items[k], name),
        forall|j: int| i <= j < k ==> !names_struct(#[trigger] items[j], name),
    ensures
        struct_from(items, name, i) == Some(items[k]->Struct_0),
    decreases k - i,
{
    if i < k {
        lemma_struct_from_first(items, name, i + 1, k);
    }
}

/// The context struct that the search finds is named exactly `name`, at
/// whatever depth of inline modules it stands; and when the items
/// themselves hold structs named `name`, the first of them is the one
/// found.
pub proof fn lemma_found_struct_is_named(items: Seq<ItemModel>, name: Seq<char>)
    ensures
        find_struct(items, name) matches Some(st) ==> st.ident@ == name,
        forall|k: int|
            0 <= k < items.len() && names_struct(#[trigger] items[k], name) && (forall|j: int|
                0 <= j < k ==> !names_struct(#[trigger] items[j], name)) ==> find_struct(items, name)
                == Some(items[k]->Struct_0),
        (exists|k: int|
            0 <= k < items.len() && names_struct(#[trigger] items[k], name)) ==> find_struct(items, name) is Some,
    decreases items, 1nat, 0nat,
{
    lemma_struct_from_named(items, name, 0);
    lemma_found_in_modules_is_named(items, name, 0);
    if exists|k: int|
        0 <= k < items.len() && names_struct(#[trigger] items[k], name) {
        let k = choose|k: int|
            0 <= k < items.len() && names_struct(#[trigger] items[k], name);
        lemma_struct_from_finds(items, name, 0, k);
    }
    assert forall|k: int|
        0 <= k < items.len() && names_struct(#[trigger] items[k], name) && (forall|j: int|
            0 <= j < k ==> !names_struct(#[trigger] items[j], name)) implies find_struct(items, name)
        == Some(items[k]->Struct_0) by {
        lemma_struct_from_first(items, name, 0, k);
    }
}

/// A struct found in the inline modules among `items` from position `i`
/// on is named `name`.
proof fn lemma_found_in_modules_is_named(items: Seq<ItemModel>, name: Seq<char>, i: int)
    ensures
        find_in_modules(items, name, i) matches Some(st) ==> st.ident@ == name,
    decreases items, 0nat, items.len() - i,
{
    if 0 <= i < items.len() {
        match items[i] {
            ItemModel::Mod(m) => match m.content {
                Some(c) => {
                    assert(decreases_to!(items => items[i]));
                    lemma_found_struct_is_named(c@, name);
                    lemma_found_in_modules_is_named(items, name, i + 1);
                },
                None => {
                    lemma_found_in_modules_is_named(items, name, i + 1);
                },
            },
            _ => {
                lemma_found_in_modules_is_named(items, name, i + 1);
            },
        }
    }
}

/// Recursively finds a struct with the given `name`.
pub fn find_ctx_struct<'a>(items: &'a Vec<ItemModel>, name: &str) -> (r: Option<&'a StructModel>)
    ensures
        r matches Some(st) ==> st.ident@ == name@,
        match r {
            Some(st) => find_struct(items@, name@) == Some(*st),
            None => find_struct(items@, name@) is None,
        },
    decreases items@,
{
    proof {
        lemma_found_struct_is_named(items@, name@);
    }
    let mut i: usize = 0;
    while i < items.len()
        invariant
            i <= items.len(),
            struct_from(items@, name@, 0) == struct_from(items@, name@, i as int),
        decreases items.len() - i,
    {
        match &items[i] {
            ItemModel::Struct(st) => {
                if same_text(st.ident.as_str(), name) {
                    return Some(st);
                }
            },
            _ => {},
        }
        i = i + 1;
    }
    let mut k: usize = 0;
    while k < items.len()
        invariant
            k <= items.len(),
            struct_from(items@, name@, 0) is None,
            find_in_modules(items@, name@, 0) == find_in_modules(items@, name@, k as int),
        decreases items.len() - k,
    {
        match &items[k] {
            ItemModel::Mod(m) => match &m.content {
                Some(c) => {
                    proof {
                        assert(decreases_to!(items@ => items@[k as int]));
                    }
                    let r = find_ctx_struct(c, name);
                    if r.is_some() {
                        return r;
                    }
                },
                None => {},
            },
            _ => {},
        }
        k = k + 1;
    }
    None
}

/// The inner type of the `Context<..>` that a function takes first: the
/// first generic argument of the first path segment of its first input.
pub open spec fn fn_ctx_arg(f: FnModel) -> Option<GenericArgumentModel> {
    match f.first_input {
        Some(FnInputModel::Typed(t)) => match t.path {
            Some(p) => if p.segments@.len() > 0 {
                match p.segments@[0].arguments {
                    PathArgumentsModel::AngleBracketed(args) => if args@.len() > 0 {
                        Some(args@[0])
                    } else {
                        None
                    },
                    _ => None,
                }
            } else {
                None
            },
            None => None,
        },
        _ => None,
    }
}

/// The error for a function without a context parameter.
pub open spec fn missing_context_error(name: Seq<char>) -> Seq<char> {
    "The function "@ + name + " does not have the Context parameter and is malformed."@
}

/// Each function among `items` with the inner type of its context, in
/// order; the error of the first function that takes no context.
pub open spec fn ix_ctx_pairs(items: Seq<ItemModel>) -> Result<
    Seq<(Seq<char>, GenericArgumentModel)>,
    Seq<char>,
>
    decreases items.len(),
{
    if items.len() == 0 {
        Ok(Seq::empty())
    } else {
        match ix_ctx_pairs(items.drop_last()) {
            Err(e) => Err(e),
            Ok(v) => match items.last() {
                ItemModel::Fn(f) => match fn_ctx_arg(f) {
                    Some(a) => Ok(v.push((f.name@, a))),
                    None => Err(missing_context_error(f.name@)),
                },
                _ => Ok(v),
            },
        }
    }
}

fn fn_context_arg(f: &FnModel) -> (r: Option<&GenericArgumentModel>)
    ensures
        match r {
            Some(a) => fn_ctx_arg(*f) == Some(*a),
            None => fn_ctx_arg(*f) is None,
        },
{
    match &f.first_input {
        Some(FnInputModel::Typed(t)) => match &t.path {
            Some(p) => {
                if p.segments.len() > 0 {
                    match &p.segments[0].arguments {
                        PathArgumentsModel::AngleBracketed(args) => {
                            if args.len() > 0 {
                                Some(&args[0])
                            } else {
                                None
                            }
                        },
                        _ => None,
                    }
                } else {
                    None
                }
            },
            None => None,
        },
        _ => None,
    }
}

pub open spec fn pairs_view(v: Seq<(&String, &GenericArgumentModel)>) -> Seq<
    (Seq<char>, GenericArgumentModel),
> {
    v.map_values(|p: (&String, &GenericArgumentModel)| (p.0@, *p.1))
}

/// Finds the functions with a `Context<_>` parameter and pairs each
/// function's name with the context's inner type.
fn get_ix_ctx_pairs<'a>(items: &'a Vec<ItemModel>) -> (r: Result<
    Vec<(&'a String, &'a GenericArgumentModel)>,
    String,
>)
    ensures
        match r {
            Ok(v) => ix_ctx_pairs(items@) == Ok::<_, Seq<char>>(pairs_view(v@)),
            Err(e) => ix_ctx_pairs(items@) == Err::<Seq<(Seq<char>, GenericArgumentModel)>, _>(e@),
        },
{
    let mut pairs: Vec<(&'a String, &'a GenericArgumentModel)> = Vec::new();
    let mut i: usize = 0;
    assert(items@.take(0) =~= Seq::<ItemModel>::empty());
    assert(pairs_view(pairs@) =~= Seq::<(Seq<char>, GenericArgumentModel)>::empty());
    while i < items.len()
        invariant
            i <= items.len(),
            ix_ctx_pairs(items@.take(i as int)) == Ok::<_, Seq<char>>(pairs_view(pairs@)),
        decreases items.len() - i,
    {
        proof {
            let t = items@.take(i + 1);
            assert(t.drop_last() =~= items@.take(i as int));
            assert(t.last() == items@[i as int]);
        }
        match &items[i] {
            ItemModel::Fn(f) => match fn_context_arg(f) {
                Some(a) => {
                    let ghost before = pairs_view(pairs@);
                    pairs.push((&f.name, a));
                    assert(pairs_view(pairs@) =~= before.push((f.name@, *a)));
                },
                None => {
                    let mut e = String::from_str("The function ");
                    e.append(f.name.as_str());
                    e.append(" does not have the Context parameter and is malformed.");
                    proof {
                        lemma_ix_ctx_pairs_error_persists(items@, i as int + 1);
                    }
                    return Err(e);
                },
            },
            _ => {},
        }
        i = i + 1;
    }
    assert(items@.take(items.len() as int) =~= items@);
    Ok(pairs)
}

/// Once the pairs of a prefix fail, the pairs of every longer prefix fail
/// the same way.
pub proof fn lemma_ix_ctx_pairs_error_persists(items: Seq<ItemModel>, k: int)
    requires
        0 <= k <= items.len(),
        ix_ctx_pairs(items.take(k)) is Err,
    ensures
        ix_ctx_pairs(items) == ix_ctx_pairs(items.take(k)),
    decreases items.len() - k,
{
    if k < items.len() {
        let t = items.take(k + 1);
        assert(t.drop_last() =~= items.take(k));
        lemma_ix_ctx_pairs_error_persists(items, k + 1);
    } else {
        assert(items.take(k) =~= items);
    }
}

/// The last module among `items` that carries the `program` attribute.
pub open spec fn last_program_mod(items: Seq<ItemModel>) -> Option<ModModel>
    decreases items.len(),
{
    if items.len() == 0 {
        None
    } else {
        match items.last() {
            ItemModel::Mod(m) => if has_program_attr(m.attrs@) {
                Some(m)
            } else {
                last_program_mod(items.drop_last())
            },
            _ => last_program_mod(items.drop_last()),
        }
    }
}

fn find_program_mod(items: &Vec<ItemModel>) -> (r: Option<&ModModel>)
    ensures
        match r {
            Some(m) => last_program_mod(items@) == Some(*m),
            None => last_program_mod(items@) is None,
        },
{
    let mut found: Option<&ModModel> = None;
    let mut i: usize = 0;
    assert(items@.take(0) =~= Seq::<ItemModel>::empty());
    while i < items.len()
        invariant
            i <= items.len(),
            match found {
                Some(m) => last_program_mod(items@.take(i as int)) == Some(*m),
                None => last_program_mod(items@.take(i as int)) is None,
            },
        decreases items.len() - i,
    {
        proof {
            let t = items@.take(i + 1);
            assert(t.drop_last() =~= items@.take(i as int));
            assert(t.last() == items@[i as int]);
        }
        match &items[i] {
            ItemModel::Mod(m) => {
                if has_program_attribute(&m.attrs) {
                    found = Some(m);
                }
            },
            _ => {},
        }
        i = i + 1;
    }
    assert(items@.take(items.len() as int) =~= items@);
    found
}

/// The context's identifier: present when the context type is a path of
/// one segment without arguments and without a leading `::`.
pub open spec fn ctx_ident(ctx: GenericArgumentModel) -> Option<Seq<char>> {
    match ctx.ty {
        Some(t) => match t.path {
            Some(p) => if !p.leading_colon && p.segments@.len() == 1
                && p.segments@[0].arguments is NoArguments {
                Some(p.segments@[0].ident@)
            } else {
                None
            },
            None => None,
        },
        None => None,
    }
}

fn context_ident(ctx: &GenericArgumentModel) -> (r: Option<&String>)
    ensures
        match r {
            Some(i) => ctx_ident(*ctx) == Some(i@),
            None => ctx_ident(*ctx) is None,
        },
{
    match &ctx.ty {
        Some(t) => match &t.path {
            Some(p) => {
                if !p.leading_colon && p.segments.len() == 1 {
                    match &p.segments[0].arguments {
                        PathArgumentsModel::NoArguments => Some(&p.segments[0].ident),
                        _ => None,
                    }
                } else {
                    None
                }
            },
            None => None,
        },
        None => None,
    }
}

/// The snapshot name registered for a context, if any.
pub open spec fn lookup(table: Seq<(Seq<char>, Seq<char>)>, key: Seq<char>) -> Option<Seq<char>>
    decreases table.len(),
{
    if table.len() == 0 {
        None
    } else if table[0].0 == key {
        Some(table[0].1)
    } else {
        lookup(table.drop_first(), key)
    }
}

pub open spec fn table_view(t: Seq<(String, String)>) -> Seq<(Seq<char>, Seq<char>)> {
    t.map_values(|p: (String, String)| (p.0@, p.1@))
}

pub open spec fn strings_view(v: Seq<String>) -> Seq<Seq<char>> {
    v.map_values(|s: String| s@)
}

fn lookup_table<'a>(table: &'a Vec<(String, String)>, key: &str) -> (r: Option<&'a String>)
    ensures
        match r {
            Some(v) => lookup(table_view(table@), key@) == Some(v@),
            None => lookup(table_view(table@), key@) is None,
        },
{
    let mut i: usize = 0;
    assert(table_view(table@).skip(0) =~= table_view(table@));
    while i < table.len()
        invariant
            i <= table.len(),
            lookup(table_view(table@), key@) == lookup(table_view(table@).skip(i as int), key@),
        decreases table.len() - i,
    {
        proof {
            let tv = table_view(table@).skip(i as int);
            assert(tv.drop_first() =~= table_view(table@).skip(i + 1));
        }
        if same_text(table[i].0.as_str(), key) {
            return Some(&table[i].1);
        }
        i = i + 1;
    }
    None
}

/// The error of the first field that the account parser rejected.
pub open spec fn first_field_error(fields: Seq<FieldModel>) -> Option<Seq<char>>
    decreases fields.len(),
{
    if fields.len() == 0 {
        None
    } else {
        match first_field_error(fields.drop_last()) {
            Some(e) => Some(e),
            None => match field_account(fields.last()) {
                Err(e) => Some(e),
                Ok(_) => None,
            },
        }
    }
}

fn single_argument_of(p: &PathModel) -> (r: Option<&GenericArgumentModel>)
    ensures
        match r {
            Some(a) => single_argument(*p) == Some(*a),
            None => single_argument(*p) is None,
        },
{
    if p.segments.len() > 0 {
        match &p.segments[0].arguments {
            PathArgumentsModel::AngleBracketed(args) => {
                if args.len() == 1 {
                    Some(&args[0])
                } else {
                    None
                }
            },
            _ => None,
        }
    } else {
        None
    }
}

fn argument_path_of(a: &GenericArgumentModel) -> (r: Option<&PathModel>)
    ensures
        match r {
            Some(q) => argument_path(*a) == Some(*q),
            None => argument_path(*a) is None,
        },
{
    match &a.ty {
        Some(t) => match &t.path {
            Some(q) => Some(q),
            None => None,
        },
        None => None,
    }
}

fn lone_non_path(p: &PathModel) -> (b: bool)
    ensures
        b == lone_non_path_argument(*p),
{
    match single_argument_of(p) {
        Some(a) => argument_path_of(a).is_none(),
        None => false,
    }
}

/// Whether the account parser panics on a field of type `t`.
fn type_panics(t: &TypeModel) -> (b: bool)
    ensures
        b == account_parser_panics(*t),
{
    match &t.path {
        None => false,
        Some(p) => {
            let is_option = starts_with_ignoring_spaces(p.tokens.as_str(), "Option<");
            if is_option && lone_non_path(p) {
                return true;
            }
            let inner = if is_option {
                match single_argument_of(p) {
                    Some(a) => argument_path_of(a),
                    None => None,
                }
            } else {
                Some(p)
            };
            match inner {
                Some(q) => (starts_with_ignoring_spaces(q.tokens.as_str(), "Box<Account<")
                    || starts_with_ignoring_spaces(q.tokens.as_str(), "Box<InterfaceAccount<"))
                    && lone_non_path(q),
                None => false,
            }
        },
    }
}

/// Whether the account parser reads a field of the type written `ty`
/// without panicking.
fn account_parser_safe_exec(ty: &str) -> (b: bool)
    ensures
        b == account_parser_safe(ty@),
{
    match parse_type(ty) {
        Some(t) => !type_panics(&t),
        None => true,
    }
}

/// The account parser reads the field without panicking.
pub open spec fn field_safe(f: FieldModel) -> bool {
    account_parser_safe(f.ty.tokens@)
}

/// Every field that the account parser reaches, up to the first it
/// rejects, is one it reads without panicking.
pub open spec fn fields_safe(fields: Seq<FieldModel>) -> bool {
    forall|i: int|
        0 <= i < fields.len() && first_field_error(fields.take(i)) is None ==> field_safe(
            #[trigger] fields[i],
        )
}

/// What reading the fields of a context struct gives.
pub enum FieldsOutcome {
    /// The account fields, in order.
    Parsed(Vec<AccountFieldModel>),
    /// The error of the first field that the account parser rejects.
    Failed(String),
    /// A field on which the account parser would panic.
    Refused,
}

/// Reads every field with the account parser: all the account fields in
/// order, or the error of the first field it rejects; `Refused` when a
/// field it reaches is one on which it would panic.
fn parse_fields(fields: &Vec<FieldModel>) -> (r: FieldsOutcome)
    ensures
        r is Refused <==> !fields_safe(fields@),
        match r {
            FieldsOutcome::Parsed(v) => first_field_error(fields@) is None && v@ == parsed_accounts(
                fields@,
            ),
            FieldsOutcome::Failed(e) => first_field_error(fields@) == Some(e@),
            FieldsOutcome::Refused => true,
        },
{
    let mut accounts: Vec<AccountFieldModel> = Vec::new();
    let mut i: usize = 0;
    assert(fields@.take(0) =~= Seq::<FieldModel>::empty());
    while i < fields.len()
        invariant
            i <= fields.len(),
            first_field_error(fields@.take(i as int)) is None,
            accounts@.len() == i,
            forall|k: int|
                0 <= k < i ==> field_account(#[trigger] fields@[k]) == Ok::<
                    AccountFieldModel,
                    Seq<char>,
                >(accounts@[k]),
            forall|k: int| 0 <= k < i ==> field_safe(#[trigger] fields@[k]),
        decreases fields.len() - i,
    {
        proof {
            let t = fields@.take(i + 1);
            assert(t.drop_last() =~= fields@.take(i as int));
            assert(t.last() == fields@[i as int]);
        }
        let f = &fields[i];
        if !account_parser_safe_exec(f.ty.tokens.as_str()) {
            return FieldsOutcome::Refused;
        }
        match parse_account(f.attrs.as_str(), f.ident.as_str(), f.ty.tokens.as_str()) {
            Err(e) => {
                proof {
                    lemma_field_error_persists(fields@, i + 1);
                    assert forall|j: int|
                        0 <= j < fields@.len() && first_field_error(fields@.take(j)) is None
                            implies field_safe(#[trigger] fields@[j]) by {
                        if j > i {
                            let tj = fields@.take(j);
                            assert(tj.take(i + 1) =~= fields@.take(i + 1));
                            lemma_field_error_persists(tj, i + 1);
                        }
                    }
                }
                return FieldsOutcome::Failed(e);
            },
            Ok(a) => {
                accounts.push(a);
            },
        }
        i = i + 1;
    }
    assert(fields@.take(fields.len() as int) =~= fields@);
    assert(accounts@ =~= parsed_accounts(fields@));
    FieldsOutcome::Parsed(accounts)
}

pub proof fn lemma_field_error_persists(fields: Seq<FieldModel>, k: int)
    requires
        0 <= k <= fields.len(),
        first_field_error(fields.take(k)) is Some,
    ensures
        first_field_error(fields) == first_field_error(fields.take(k)),
    decreases fields.len() - k,
{
    if k < fields.len() {
        let t = fields.take(k + 1);
        assert(t.drop_last() =~= fields.take(k));
        lemma_field_error_persists(fields, k + 1);
    } else {
        assert(fields.take(k) =~= fields);
    }
}

/// The type alias of a snapshot for a context that already has one.
pub open spec fn alias_text(alias: Seq<char>, base: Seq<char>) -> Seq<char> {
    "pub type "@ + alias + " < 'info > = "@ + base + " < 'info > ;"@
}

/// What has been generated after some instructions: the snapshot
/// structs, their implementations, the type aliases, the snapshot name of
/// each context seen, the warnings, and the error that stopped the work.
pub struct SnapshotState {
    pub structs: Seq<char>,
    pub impls: Seq<char>,
    pub aliases: Seq<char>,
    pub table: Seq<(Seq<char>, Seq<char>)>,
    pub warnings: Seq<Seq<char>>,
    pub error: Option<Seq<char>>,
}

pub open spec fn initial_state() -> SnapshotState {
    SnapshotState {
        structs: Seq::empty(),
        impls: Seq::empty(),
        aliases: Seq::empty(),
        table: Seq::empty(),
        warnings: Seq::empty(),
        error: None,
    }
}

pub open spec fn with_error(st: SnapshotState, e: Seq<char>) -> SnapshotState {
    SnapshotState { error: Some(e), ..st }
}

/// One instruction `ix` with context `ctx`: a context seen before gets a
/// type alias; a new one gets a snapshot struct and its implementation,
/// generated from the context struct found in `code`.
pub open spec fn snapshot_step(
    code: Seq<ItemModel>,
    st: SnapshotState,
    ix: Seq<char>,
    ctx: GenericArgumentModel,
) -> SnapshotState {
    if st.error is Some {
        st
    } else {
        let ix_name = upper_camel(ix);
        let snapshot = ix_name + "Snapshot"@;
        match ctx_ident(ctx) {
            None => with_error(st, "malformed parameters of "@ + ix_name + " instruction"@),
            Some(ci) => match lookup(st.table, ctx.tokens@) {
                Some(base) => SnapshotState { aliases: st.aliases + alias_text(snapshot, base), ..st },
                None => match find_struct(code, ci) {
                    None => with_error(st, "The Context struct "@ + ci + " was not found"@),
                    Some(cs) => match cs.fields {
                        FieldsModel::Named(fs) => match first_field_error(fs@) {
                            Some(e) => with_error(st, e),
                            None => SnapshotState {
                                structs: st.structs + snapshot_struct_text(
                                    snapshot,
                                    fs@,
                                    parsed_accounts(fs@),
                                ),
                                impls: st.impls + deser_impl_text(snapshot, parsed_accounts(fs@)),
                                table: st.table.push((ctx.tokens@, snapshot)),
                                warnings: st.warnings + snapshot_warnings(
                                    cs.ident@,
                                    fs@,
                                    parsed_accounts(fs@),
                                ),
                                ..st
                            },
                        },
                        _ => with_error(st, "Context struct parse errror."@),
                    },
                },
            },
        }
    }
}

/// The step of instruction `ix` runs without panicking: the snapshot
/// name it forms is an identifier, and the account parser does not panic
/// on the fields of a new context struct that it reads.
pub open spec fn step_accepted(
    code: Seq<ItemModel>,
    st: SnapshotState,
    ix: Seq<char>,
    ctx: GenericArgumentModel,
) -> bool {
    st.error is None && ctx_ident(ctx) is Some ==> match lookup(st.table, ctx.tokens@) {
        Some(_) => rust_ident(snapshot_name(ix)),
        None => match find_struct(code, ctx_ident(ctx)->0) {
            Some(cs) => match cs.fields {
                FieldsModel::Named(fs) => fields_safe(fs@) && (first_field_error(fs@) is None
                    ==> rust_ident(snapshot_name(ix))),
                _ => true,
            },
            None => true,
        },
    }
}

/// All instructions in order.
pub open spec fn snapshot_fold(
    code: Seq<ItemModel>,
    pairs: Seq<(Seq<char>, GenericArgumentModel)>,
) -> SnapshotState
    decreases pairs.len(),
{
    if pairs.len() == 0 {
        initial_state()
    } else {
        snapshot_step(code, snapshot_fold(code, pairs.drop_last()), pairs.last().0, pairs.last().1)
    }
}

/// Every step that the instructions take runs without panicking.
pub open spec fn steps_accepted(
    code: Seq<ItemModel>,
    pairs: Seq<(Seq<char>, GenericArgumentModel)>,
) -> bool {
    forall|k: int|
        0 <= k < pairs.len() ==> step_accepted(
            code,
            snapshot_fold(code, pairs.take(k)),
            (#[trigger] pairs[k]).0,
            pairs[k].1,
        )
}

pub proof fn lemma_fold_error_persists(
    code: Seq<ItemModel>,
    pairs: Seq<(Seq<char>, GenericArgumentModel)>,
    k: int,
)
    requires
        0 <= k <= pairs.len(),
        snapshot_fold(code, pairs.take(k)).error is Some,
    ensures
        snapshot_fold(code, pairs) == snapshot_fold(code, pairs.take(k)),
    decreases pairs.len() - k,
{
    if k < pairs.len() {
        let t = pairs.take(k + 1);
        assert(t.drop_last() =~= pairs.take(k));
        lemma_fold_error_persists(code, pairs, k + 1);
    } else {
        assert(pairs.take(k) =~= pairs);
    }
}

proof fn lemma_fold_step(
    code: Seq<ItemModel>,
    pairs: Seq<(Seq<char>, GenericArgumentModel)>,
    k: int,
)
    requires
        0 <= k < pairs.len(),
    ensures
        snapshot_fold(code, pairs.take(k + 1)) == snapshot_step(
            code,
            snapshot_fold(code, pairs.take(k)),
            pairs[k].0,
            pairs[k].1,
        ),
{
    let t = pairs.take(k + 1);
    assert(t.drop_last() =~= pairs.take(k));
    assert(t.last() == pairs[k]);
}

/// The snapshot name formed from an instruction's name.
pub open spec fn snapshot_name(ix: Seq<char>) -> Seq<char> {
    upper_camel(ix) + "Snapshot"@
}

/// Instruction `f` is the first whose context has the token text `key`.
pub open spec fn first_with_context(
    pairs: Seq<(Seq<char>, GenericArgumentModel)>,
    key: Seq<char>,
    f: int,
) -> bool {
    &&& 0 <= f < pairs.len()
    &&& pairs[f].1.tokens@ == key
    &&& forall|i: int| 0 <= i < f ==> (#[trigger] pairs[i]).1.tokens@ != key
}

/// No context is listed twice.
pub open spec fn keys_distinct(table: Seq<(Seq<char>, Seq<char>)>) -> bool {
    forall|i: int, j: int| 0 <= i < j < table.len() ==> (#[trigger] table[i]).0 != (#[trigger] table[j]).0
}

pub proof fn lemma_lookup_none(table: Seq<(Seq<char>, Seq<char>)>, key: Seq<char>)
    ensures
        lookup(table, key) is None <==> forall|i: int| 0 <= i < table.len() ==> (#[trigger] table[i]).0 != key,
    decreases table.len(),
{
    if table.len() > 0 {
        lemma_lookup_none(table.drop_first(), key);
        if lookup(table, key) is None {
            assert forall|i: int| 0 <= i < table.len() implies (#[trigger] table[i]).0 != key by {
                if i > 0 {
                    assert(table.drop_first()[i - 1] == table[i]);
                }
            }
        } else {
            if table[0].0 != key {
                let i = choose|i: int|
                    0 <= i < table.drop_first().len() && (#[trigger] table.drop_first()[i]).0 == key;
                assert(table[i + 1] == table.drop_first()[i]);
            }
        }
    }
}

pub proof fn lemma_lookup_push(
    table: Seq<(Seq<char>, Seq<char>)>,
    e: (Seq<char>, Seq<char>),
    key: Seq<char>,
)
    ensures
        lookup(table.push(e), key) == if lookup(table, key) is Some {
            lookup(table, key)
        } else if e.0 == key {
            Some(e.1)
        } else {
            None
        },
    decreases table.len(),
{
    if table.len() == 0 {
        assert(table.push(e).drop_first() =~= table);
    } else {
        assert(table.push(e).drop_first() =~= table.drop_first().push(e));
        lemma_lookup_push(table.drop_first(), e, key);
    }
}

/// Each context gets one snapshot struct. The generated snapshots never
/// list a context twice; every context listed is named after the first
/// instruction that takes it; and once all instructions are handled,
/// every instruction's context is listed, so that a later instruction
/// with the same context gets a type alias of that first snapshot.
pub proof fn lemma_one_snapshot_per_context(
    code: Seq<ItemModel>,
    pairs: Seq<(Seq<char>, GenericArgumentModel)>,
)
    ensures
        keys_distinct(snapshot_fold(code, pairs).table),
        forall|key: Seq<char>|
            #![trigger lookup(snapshot_fold(code, pairs).table, key)]
            lookup(snapshot_fold(code, pairs).table, key) is Some ==> exists|f: int|
                first_with_context(pairs, key, f) && lookup(snapshot_fold(code, pairs).table, key)
                    == Some(snapshot_name((#[trigger] pairs[f]).0)),
        snapshot_fold(code, pairs).error is None ==> forall|k: int|
            0 <= k < pairs.len() ==> lookup(
                snapshot_fold(code, pairs).table,
                (#[trigger] pairs[k]).1.tokens@,
            ) is Some,
    decreases pairs.len(),
{
    if pairs.len() > 0 {
        let init = pairs.drop_last();
        let n = pairs.len() - 1;
        let (ix, ctx) = pairs.last();
        let key = ctx.tokens@;
        let st = snapshot_fold(code, init);
        let st2 = snapshot_fold(code, pairs);
        lemma_one_snapshot_per_context(code, init);
        assert(st2 == snapshot_step(code, st, ix, ctx));
        assert forall|i: int| 0 <= i < n implies #[trigger] init[i] == pairs[i] by {}
        // the table either stays or gains the context of the last instruction
        if st2.table == st.table {
            assert forall|k: Seq<char>|
                #![trigger lookup(st2.table, k)]
                lookup(st2.table, k) is Some implies exists|f: int|
                    first_with_context(pairs, k, f) && lookup(st2.table, k) == Some(
                        snapshot_name((#[trigger] pairs[f]).0),
                    ) by {
                let f = choose|f: int|
                    first_with_context(init, k, f) && lookup(st.table, k) == Some(
                        snapshot_name((#[trigger] init[f]).0),
                    );
                assert(init[f] == pairs[f]);
                assert forall|i: int| 0 <= i < f implies (#[trigger] pairs[i]).1.tokens@ != k by {
                    assert(init[i] == pairs[i]);
                }
                assert(first_with_context(pairs, k, f));
            }
            if st2.error is None {
                assert(st.error is None);
                assert forall|k: int| 0 <= k < pairs.len() implies lookup(
                    st2.table,
                    (#[trigger] pairs[k]).1.tokens@,
                ) is Some by {
                    if k < n {
                        assert(init[k] == pairs[k]);
                    } else {
                        assert(ctx_ident(ctx) is Some);
                    }
                }
            }
        } else {
            let e = (key, snapshot_name(ix));
            assert(st.error is None);
            assert(lookup(st.table, key) is None);
            assert(st2.table == st.table.push(e));
            lemma_lookup_none(st.table, key);
            assert(keys_distinct(st2.table)) by {
                assert forall|i: int, j: int| 0 <= i < j < st2.table.len() implies (
                #[trigger] st2.table[i]).0 != (#[trigger] st2.table[j]).0 by {
                    if j == st.table.len() {
                        assert(st2.table[i] == st.table[i]);
                    } else {
                        assert(st2.table[i] == st.table[i]);
                        assert(st2.table[j] == st.table[j]);
                    }
                }
            }
            assert forall|k: Seq<char>|
                #![trigger lookup(st2.table, k)]
                lookup(st2.table, k) is Some implies exists|f: int|
                    first_with_context(pairs, k, f) && lookup(st2.table, k) == Some(
                        snapshot_name((#[trigger] pairs[f]).0),
                    ) by {
                lemma_lookup_push(st.table, e, k);
                if lookup(st.table, k) is Some {
                    let f = choose|f: int|
                        first_with_context(init, k, f) && lookup(st.table, k) == Some(
                            snapshot_name((#[trigger] init[f]).0),
                        );
                    assert(init[f] == pairs[f]);
                    assert forall|i: int| 0 <= i < f implies (#[trigger] pairs[i]).1.tokens@ != k by {
                        assert(init[i] == pairs[i]);
                    }
                    assert(first_with_context(pairs, k, f));
                } else {
                    assert(k == key);
                    assert forall|i: int| 0 <= i < n implies (#[trigger] pairs[i]).1.tokens@ != k by {
                        assert(init[i] == pairs[i]);
                        assert(lookup(st.table, init[i].1.tokens@) is Some);
                    }
                    assert(first_with_context(pairs, k, n));
                    assert(pairs[n] == (ix, ctx));
                }
            }
            assert forall|k: int| 0 <= k < pairs.len() implies lookup(
                st2.table,
                (#[trigger] pairs[k]).1.tokens@,
            ) is Some by {
                lemma_lookup_push(st.table, e, pairs[k].1.tokens@);
                if k < n {
                    assert(init[k] == pairs[k]);
                }
            }
        }
    }
}

/// The state of the exec generator matches the spec state `st`.
pub open spec fn state_matches(
    st: SnapshotState,
    structs: Seq<char>,
    impls: Seq<char>,
    aliases: Seq<char>,
    table: Seq<(String, String)>,
    warnings: Seq<String>,
    start: Seq<Seq<char>>,
) -> bool {
    &&& structs == st.structs
    &&& impls == st.impls
    &&& aliases == st.aliases
    &&& table_view(table) == st.table
    &&& strings_view(warnings) == start + st.warnings
}

/// What handling one instruction gives.
pub enum StepOutcome {
    /// The instruction was handled.
    Continue,
    /// The error that stops the work.
    Failed(String),
    /// The instruction would make the generation panic.
    Refused,
}

/// Handles one instruction: the error that stops the work, or `Refused`
/// when the step would panic (a snapshot name that is no identifier, or a
/// field on which the account parser panics).
fn snapshot_step_exec(
    code: &Vec<ItemModel>,
    ix: &String,
    ctx: &GenericArgumentModel,
    structs: &mut String,
    impls: &mut String,
    aliases: &mut String,
    table: &mut Vec<(String, String)>,
    warnings: &mut Vec<String>,
    Ghost(st): Ghost<SnapshotState>,
    Ghost(start): Ghost<Seq<Seq<char>>>,
) -> (r: StepOutcome)
    requires
        st.error is None,
        state_matches(
            st,
            old(structs)@,
            old(impls)@,
            old(aliases)@,
            old(table)@,
            old(warnings)@,
            start,
        ),
    ensures
        r is Refused <==> !step_accepted(code@, st, ix@, *ctx),
        ({
            let next = snapshot_step(code@, st, ix@, *ctx);
            match r {
                StepOutcome::Failed(e) => next.error == Some(e@) && next.warnings == st.warnings
                    && strings_view(final(warnings)@) == start + st.warnings,
                StepOutcome::Continue => next.error is None && state_matches(
                    next,
                    final(structs)@,
                    final(impls)@,
                    final(aliases)@,
                    final(table)@,
                    final(warnings)@,
                    start,
                ),
                StepOutcome::Refused => true,
            }
        }),
{
    let ix_name = to_upper_camel(ix.as_str());
    match context_ident(ctx) {
        None => {
            let mut e = String::from_str("malformed parameters of ");
            e.append(ix_name.as_str());
            e.append(" instruction");
            StepOutcome::Failed(e)
        },
        Some(ci) => {
            let snapshot = ix_name.concat("Snapshot");
            match lookup_table(table, ctx.tokens.as_str()) {
                Some(base) => {
                    if !is_rust_ident(snapshot.as_str()) {
                        return StepOutcome::Refused;
                    }
                    aliases.append("pub type ");
                    aliases.append(snapshot.as_str());
                    aliases.append(" < 'info > = ");
                    aliases.append(base.as_str());
                    aliases.append(" < 'info > ;");
                    assert(aliases@ =~= st.aliases + alias_text(ix_name@ + "Snapshot"@, base@));
                    StepOutcome::Continue
                },
                None => match find_ctx_struct(code, ci.as_str()) {
                    None => {
                        let mut e = String::from_str("The Context struct ");
                        e.append(ci.as_str());
                        e.append(" was not found");
                        StepOutcome::Failed(e)
                    },
                    Some(cs) => match &cs.fields {
                        FieldsModel::Named(fs) => match parse_fields(fs) {
                            FieldsOutcome::Refused => StepOutcome::Refused,
                            FieldsOutcome::Failed(e) => StepOutcome::Failed(e),
                            FieldsOutcome::Parsed(accounts) => {
                                if !is_rust_ident(snapshot.as_str()) {
                                    return StepOutcome::Refused;
                                }
                                let st_text = create_snapshot_struct(
                                    snapshot.as_str(),
                                    cs.ident.as_str(),
                                    fs,
                                    &accounts,
                                    warnings,
                                );
                                structs.append(st_text.as_str());
                                let im = deserialize_ctx_struct_anchor(snapshot.as_str(), &accounts);
                                impls.append(im.as_str());
                                let ghost tv = table_view(table@);
                                table.push((ctx.tokens.clone(), snapshot));
                                assert(table_view(table@) =~= tv.push(
                                    (ctx.tokens@, ix_name@ + "Snapshot"@),
                                ));
                                assert(strings_view(warnings@) =~= start + (st.warnings
                                    + snapshot_warnings(cs.ident@, fs@, parsed_accounts(fs@))));
                                StepOutcome::Continue
                            },
                        },
                        _ => StepOutcome::Failed(String::from_str("Context struct parse errror.")),
                    },
                },
            }
        },
    }
}

/// Once a step fails, no later step runs, so the steps up to the failing
/// one decide whether the generation panics.
proof fn lemma_steps_accepted_after_error(
    code: Seq<ItemModel>,
    pv: Seq<(Seq<char>, GenericArgumentModel)>,
    k: int,
)
    requires
        0 <= k < pv.len(),
        snapshot_fold(code, pv.take(k + 1)).error is Some,
        forall|j: int|
            0 <= j <= k ==> step_accepted(
                code,
                snapshot_fold(code, pv.take(j)),
                (#[trigger] pv[j]).0,
                pv[j].1,
            ),
    ensures
        steps_accepted(code, pv),
{
    assert forall|j: int| 0 <= j < pv.len() implies step_accepted(
        code,
        snapshot_fold(code, pv.take(j)),
        (#[trigger] pv[j]).0,
        pv[j].1,
    ) by {
        if j > k {
            let tj = pv.take(j);
            assert(tj.take(k + 1) =~= pv.take(k + 1));
            lemma_fold_error_persists(code, tj, k + 1);
        }
    }
}

/// Creates the snapshot structs of all instructions, their
/// implementations and the type aliases for repeated contexts, and
/// appends the warnings for nested accounts structs to `warnings`;
/// `None` when a step would panic.
#[verifier::spinoff_prover]
#[verifier::rlimit(40)]
fn get_snapshot_structs_and_impls(
    code: &Vec<ItemModel>,
    pairs: &Vec<(&String, &GenericArgumentModel)>,
    warnings: &mut Vec<String>,
) -> (r: Option<Result<(String, String, String), String>>)
    ensures
        r is None <==> !steps_accepted(code@, pairs_view(pairs@)),
        r matches Some(res) ==> ({
            let st = snapshot_fold(code@, pairs_view(pairs@));
            &&& strings_view(final(warnings)@) == strings_view(old(warnings)@) + st.warnings
            &&& match res {
                Ok(t) => st.error is None && t.0@ == st.structs && t.1@ == st.impls && t.2@
                    == st.aliases,
                Err(e) => st.error == Some(e@),
            }
        }),
{
    let ghost pv = pairs_view(pairs@);
    let ghost start = strings_view(warnings@);
    let mut structs = String::new();
    let mut impls = String::new();
    let mut aliases = String::new();
    let mut table: Vec<(String, String)> = Vec::new();
    let mut k: usize = 0;
    assert(pv.take(0) =~= Seq::<(Seq<char>, GenericArgumentModel)>::empty());
    assert(table_view(table@) =~= Seq::<(Seq<char>, Seq<char>)>::empty());
    assert(start + Seq::<Seq<char>>::empty() =~= start);
    while k < pairs.len()
        invariant
            k <= pairs.len(),
            pv == pairs_view(pairs@),
            start == strings_view(old(warnings)@),
            snapshot_fold(code@, pv.take(k as int)).error is None,
            forall|j: int|
                0 <= j < k ==> step_accepted(
                    code@,
                    snapshot_fold(code@, pv.take(j)),
                    (#[trigger] pv[j]).0,
                    pv[j].1,
                ),
            state_matches(
                snapshot_fold(code@, pv.take(k as int)),
                structs@,
                impls@,
                aliases@,
                table@,
                warnings@,
                start,
            ),
        decreases pairs.len() - k,
    {
        let ghost st = snapshot_fold(code@, pv.take(k as int));
        proof {
            lemma_fold_step(code@, pv, k as int);
        }
        let ix = pairs[k].0;
        let ctx = pairs[k].1;
        assert(pv[k as int] == (ix@, *ctx));
        let r = snapshot_step_exec(
            code,
            ix,
            ctx,
            &mut structs,
            &mut impls,
            &mut aliases,
            &mut table,
            warnings,
            Ghost(st),
            Ghost(start),
        );
        match r {
            StepOutcome::Refused => {
                return None;
            },
            StepOutcome::Failed(e) => {
                proof {
                    lemma_fold_error_persists(code@, pv, k + 1);
                    lemma_steps_accepted_after_error(code@, pv, k as int);
                }
                return Some(Err(e));
            },
            StepOutcome::Continue => {},
        }
        k = k + 1;
    }
    assert(pv.take(pairs.len() as int) =~= pv);
    Some(Ok((structs, impls, aliases)))
}

/// The sources of one program: the text of the whole program code, in
/// which the context structs are looked up, and the text of the file that
/// holds the program module, or the message of the error that reading it
/// gave.
pub struct ProgramSources {
    pub code: String,
    pub lib: Result<String, String>,
}

/// The items of the file that holds the program module, or the error of
/// reading or parsing it.
pub open spec fn lib_items(src: ProgramSources) -> Result<Seq<ItemModel>, Seq<char>> {
    match src.lib {
        Err(e) => Err(e@),
        Ok(t) => parsed_items(t@),
    }
}

/// The items of the whole program code, or the error of parsing it.
pub open spec fn code_items(src: ProgramSources) -> Result<Seq<ItemModel>, Seq<char>> {
    parsed_items(src.code@)
}

/// The generated snapshots, or the error that stopped the generation, and
/// the warnings given until then.
pub struct SnapshotsCode {
    pub code: Result<String, String>,
    pub warnings: Vec<String>,
}

/// The imports at the head of each program's snapshots.
pub open spec fn use_statements_text() -> Seq<char> {
    "use trdelnik_client :: anchor_lang :: { prelude :: * , self } ; use trdelnik_client :: fuzzing :: FuzzingError ;"@
}

/// The snapshots of one program, or the error that stops them, with the
/// warnings given.
pub open spec fn program_snapshots(src: ProgramSources) -> (Result<Seq<char>, Seq<char>>, Seq<
    Seq<char>,
>) {
    match lib_items(src) {
        Err(e) => (Err(e), Seq::empty()),
        Ok(items) => match last_program_mod(items) {
            None => (Err("module with program attribute not found"@), Seq::empty()),
            Some(m) => match m.content {
                None => (Err("the content of program module is missing"@), Seq::empty()),
                Some(c) => match ix_ctx_pairs(c@) {
                    Err(e) => (Err(e), Seq::empty()),
                    Ok(pairs) => match code_items(src) {
                        Err(e) => (Err(e), Seq::empty()),
                        Ok(ci) => {
                            let st = snapshot_fold(ci, pairs);
                            (
                                if st.error is Some {
                                    Err(st.error->0)
                                } else {
                                    Ok(use_statements_text() + st.structs + st.impls + st.aliases)
                                },
                                st.warnings,
                            )
                        },
                    },
                },
            },
        },
    }
}

/// The generation of the program's snapshots runs without panicking.
pub open spec fn program_accepted(src: ProgramSources) -> bool {
    match lib_items(src) {
        Ok(items) => match last_program_mod(items) {
            Some(m) => match m.content {
                Some(c) => match ix_ctx_pairs(c@) {
                    Ok(pairs) => match code_items(src) {
                        Ok(ci) => steps_accepted(ci, pairs),
                        Err(_) => true,
                    },
                    Err(_) => true,
                },
                None => true,
            },
            None => true,
        },
        Err(_) => true,
    }
}

/// The programs in order, until the first error.
pub open spec fn snapshots_fold(srcs: Seq<ProgramSources>) -> (Result<Seq<char>, Seq<char>>, Seq<
    Seq<char>,
>)
    decreases srcs.len(),
{
    if srcs.len() == 0 {
        (Ok(Seq::empty()), Seq::empty())
    } else {
        let prev = snapshots_fold(srcs.drop_last());
        match prev.0 {
            Err(_) => prev,
            Ok(acc) => {
                let cur = program_snapshots(srcs.last());
                (
                    match cur.0 {
                        Ok(c) => Ok(acc + c),
                        Err(e) => Err(e),
                    },
                    prev.1 + cur.1,
                )
            },
        }
    }
}

/// The generation runs without panicking on every program it reaches.
pub open spec fn snapshots_accepted(srcs: Seq<ProgramSources>) -> bool {
    forall|i: int|
        0 <= i < srcs.len() && (#[trigger] snapshots_fold(srcs.take(i))).0 is Ok
            ==> program_accepted(srcs[i])
}

/// The snapshots of one program, or the error that stops them; `None`
/// when the generation would panic.
fn program_snapshots_exec(src: &ProgramSources, warnings: &mut Vec<String>) -> (r: Option<
    Result<String, String>,
>)
    ensures
        r is None <==> !program_accepted(*src),
        r matches Some(res) ==> ({
            let p = program_snapshots(*src);
            &&& strings_view(final(warnings)@) == strings_view(old(warnings)@) + p.1
            &&& match res {
                Ok(c) => p.0 == Ok::<Seq<char>, Seq<char>>(c@),
                Err(e) => p.0 == Err::<Seq<char>, Seq<char>>(e@),
            }
        }),
{
    let ghost w0 = strings_view(warnings@);
    assert(w0 + Seq::<Seq<char>>::empty() =~= w0);
    let items = match &src.lib {
        Err(e) => {
            return Some(Err(e.clone()));
        },
        Ok(text) => match parse_items(text.as_str()) {
            Err(e) => {
                return Some(Err(e));
            },
            Ok(items) => items,
        },
    };
    let m = match find_program_mod(&items) {
        None => {
            return Some(Err(String::from_str("module with program attribute not found")));
        },
        Some(m) => m,
    };
    let content = match &m.content {
        None => {
            return Some(Err(String::from_str("the content of program module is missing")));
        },
        Some(c) => c,
    };
    let pairs = match get_ix_ctx_pairs(content) {
        Err(e) => {
            return Some(Err(e));
        },
        Ok(pairs) => pairs,
    };
    let code = match parse_items(src.code.as_str()) {
        Err(e) => {
            return Some(Err(e));
        },
        Ok(code) => code,
    };
    match get_snapshot_structs_and_impls(&code, &pairs, warnings) {
        None => None,
        Some(Err(e)) => Some(Err(e)),
        Some(Ok(parts)) => {
            let mut out = String::from_str(
                "use trdelnik_client :: anchor_lang :: { prelude :: * , self } ; use trdelnik_client :: fuzzing :: FuzzingError ;",
            );
            out.append(parts.0.as_str());
            out.append(parts.1.as_str());
            out.append(parts.2.as_str());
            Some(Ok(out))
        },
    }
}

/// Generates `accounts_snapshots.rs` for the programs in order: the
/// snapshots of each program concatenated, or the first error; with the
/// warnings for nested accounts structs given until then.
pub fn generate_snapshots_code(sources: &Vec<ProgramSources>) -> (out: SnapshotsCode)
    requires
        snapshots_accepted(sources@),
    ensures
        ({
            let f = snapshots_fold(sources@);
            &&& strings_view(out.warnings@) == f.1
            &&& match out.code {
                Ok(c) => f.0 == Ok::<Seq<char>, Seq<char>>(c@),
                Err(e) => f.0 == Err::<Seq<char>, Seq<char>>(e@),
            }
        }),
{
    match try_generate_snapshots_code(sources) {
        Some(out) => out,
        None => SnapshotsCode { code: Ok(String::new()), warnings: Vec::new() },
    }
}

/// Generates `accounts_snapshots.rs` as `generate_snapshots_code` does
/// when the generation runs without panicking on every program it
/// reaches; `None` otherwise, where a snapshot name would not be an
/// identifier or the account parser would panic on a field.
pub fn try_generate_snapshots_code(sources: &Vec<ProgramSources>) -> (out: Option<SnapshotsCode>)
    ensures
        out is Some <==> snapshots_accepted(sources@),
        out matches Some(o) ==> ({
            let f = snapshots_fold(sources@);
            &&& strings_view(o.warnings@) == f.1
            &&& match o.code {
                Ok(c) => f.0 == Ok::<Seq<char>, Seq<char>>(c@),
                Err(e) => f.0 == Err::<Seq<char>, Seq<char>>(e@),
            }
        }),
{
    let mut warnings: Vec<String> = Vec::new();
    let mut code = String::new();
    let mut i: usize = 0;
    assert(sources@.take(0) =~= Seq::<ProgramSources>::empty());
    assert(strings_view(warnings@) =~= Seq::<Seq<char>>::empty());
    while i < sources.len()
        invariant
            i <= sources.len(),
            forall|j: int|
                0 <= j < i && (#[trigger] snapshots_fold(sources@.take(j))).0 is Ok
                    ==> program_accepted(sources@[j]),
            snapshots_fold(sources@.take(i as int)).0 == Ok::<Seq<char>, Seq<char>>(code@),
            snapshots_fold(sources@.take(i as int)).1 == strings_view(warnings@),
        decreases sources.len() - i,
    {
        proof {
            let t = sources@.take(i + 1);
            assert(t.drop_last() =~= sources@.take(i as int));
            assert(t.last() == sources@[i as int]);
            assert(snapshots_fold(sources@.take(i as int)).0 is Ok);
        }
        let r = program_snapshots_exec(&sources[i], &mut warnings);
        match r {
            None => {
                assert(!snapshots_accepted(sources@)) by {
                    assert(snapshots_fold(sources@.take(i as int)).0 is Ok);
                }
                return None;
            },
            Some(Err(e)) => {
                proof {
                    lemma_snapshots_error_persists(sources@, i + 1);
                    assert forall|j: int|
                        0 <= j < sources@.len() && (#[trigger] snapshots_fold(
                            sources@.take(j),
                        )).0 is Ok implies program_accepted(sources@[j]) by {
                        if j > i {
                            let tj = sources@.take(j);
                            assert(tj.take(i + 1) =~= sources@.take(i + 1));
                            lemma_snapshots_error_persists(tj, i + 1);
                        }
                    }
                }
                return Some(SnapshotsCode { code: Err(e), warnings });
            },
            Some(Ok(c)) => {
                code.append(c.as_str());
            },
        }
        i = i + 1;
    }
    assert(sources@.take(sources.len() as int) =~= sources@);
    Some(SnapshotsCode { code: Ok(code), warnings })
}

pub proof fn lemma_snapshots_error_persists(srcs: Seq<ProgramSources>, k: int)
    requires
        0 <= k <= srcs.len(),
        snapshots_fold(srcs.take(k)).0 is Err,
    ensures
        snapshots_fold(srcs) == snapshots_fold(srcs.take(k)),
    decreases srcs.len() - k,
{
    if k < srcs.len() {
        let t = srcs.take(k + 1);
        assert(t.drop_last() =~= srcs.take(k));
        lemma_snapshots_error_persists(srcs, k + 1);
    } else {
        assert(srcs.take(k) =~= srcs);
    }
}

/// Generation goes program by program: for programs `a` followed by
/// programs `b`, where `a` gives no error, the code is that of `a`
/// followed by that of `b`, or the error of `b`, and the warnings are
/// those of `a` followed by those of `b`.
pub proof fn lemma_snapshots_compose(a: Seq<ProgramSources>, b: Seq<ProgramSources>)
    requires
        snapshots_fold(a).0 is Ok,
    ensures
        snapshots_fold(a + b).1 == snapshots_fold(a).1 + snapshots_fold(b).1,
        snapshots_fold(a + b).0 == match snapshots_fold(b).0 {
            Ok(c) => Ok::<Seq<char>, Seq<char>>(snapshots_fold(a).0->Ok_0 + c),
            Err(e) => Err(e),
        },
    decreases b.len(),
{
    if b.len() == 0 {
        assert(a + b =~= a);
        assert(snapshots_fold(a).1 + Seq::<Seq<char>>::empty() =~= snapshots_fold(a).1);
        assert(snapshots_fold(a).0->Ok_0 + Seq::<char>::empty() =~= snapshots_fold(a).0->Ok_0);
    } else {
        let b1 = b.drop_last();
        lemma_snapshots_compose(a, b1);
        assert((a + b).drop_last() =~= a + b1);
        assert((a + b).last() == b.last());
        let w_a = snapshots_fold(a).1;
        let w_b1 = snapshots_fold(b1).1;
        let cur = program_snapshots(b.last());
        match snapshots_fold(b1).0 {
            Err(_) => {},
            Ok(c1) => {
                assert(w_a + w_b1 + cur.1 =~= w_a + (w_b1 + cur.1));
                match cur.0 {
                    Ok(c) => {
                        let a0 = snapshots_fold(a).0->Ok_0;
                        assert(a0 + c1 + c =~= a0 + (c1 + c));
                    },
                    Err(_) => {},
                }
            },
        }
    }
}

} // verus!
