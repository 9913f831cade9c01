use quote::ToTokens;
use syn::{Fields, FnArg, GenericArgument, Item, PathArguments, Type};
use trdelnik::snapshot_generator::{
    extract_inner_type, find_ctx_struct, generate_snapshots_code, has_program_attribute,
    is_boxed, is_optional, starts_with_ignoring_spaces, sysvar_to_ident, try_generate_snapshots_code,
    ty_to_tokens, ProgramSources,
};
use trdelnik::syntax_model::{
    AccountFieldModel, AccountTyModel, FieldModel, FieldsModel, FnInputModel, FnModel,
    GenericArgumentModel, ItemModel, ModModel, PathArgumentsModel, PathModel, SegmentModel,
    StructModel, SysvarModel, TypeModel,
};

/// The type `src` as `syn` prints it.
fn printed_type(src: &str) -> String {
    syn::parse_str::<Type>(src).unwrap().to_token_stream().to_string()
}

/// The path `src` as `syn` prints it.
fn printed_path(src: &str) -> String {
    syn::parse_str::<syn::Path>(src).unwrap().to_token_stream().to_string()
}

fn tokens<T: ToTokens>(t: &T) -> String {
    t.to_token_stream().to_string()
}

fn type_model(t: &Type) -> TypeModel {
    TypeModel {
        tokens: tokens(t),
        path: match t {
            Type::Path(tp) => Some(path_model(&tp.path)),
            _ => None,
        },
    }
}

fn path_model(p: &syn::Path) -> PathModel {
    PathModel {
        tokens: tokens(p),
        leading_colon: p.leading_colon.is_some(),
        segments: p
            .segments
            .iter()
            .map(|s| SegmentModel {
                ident: s.ident.to_string(),
                arguments: match &s.arguments {
                    PathArguments::None => PathArgumentsModel::NoArguments,
                    PathArguments::AngleBracketed(a) => PathArgumentsModel::AngleBracketed(
                        a.args.iter().map(generic_argument_model).collect(),
                    ),
                    PathArguments::Parenthesized(_) => PathArgumentsModel::Parenthesized,
                },
            })
            .collect(),
    }
}

fn generic_argument_model(g: &GenericArgument) -> GenericArgumentModel {
    GenericArgumentModel {
        tokens: tokens(g),
        ty: match g {
            GenericArgument::Type(t) => Some(type_model(t)),
            _ => None,
        },
    }
}

fn item_model(item: &Item) -> ItemModel {
    match item {
        Item::Fn(f) => ItemModel::Fn(FnModel {
            name: f.sig.ident.to_string(),
            first_input: f.sig.inputs.iter().next().map(|a| match a {
                FnArg::Receiver(_) => FnInputModel::Receiver,
                FnArg::Typed(t) => FnInputModel::Typed(type_model(&t.ty)),
            }),
        }),
        Item::Struct(s) => ItemModel::Struct(StructModel {
            ident: s.ident.to_string(),
            fields: match &s.fields {
                Fields::Named(n) => FieldsModel::Named(
                    n.named
                        .iter()
                        .map(|f| FieldModel {
                            attrs: String::new(),
                            ident: f.ident.as_ref().unwrap().to_string(),
                            ty: type_model(&f.ty),
                        })
                        .collect(),
                ),
                Fields::Unnamed(_) => FieldsModel::Unnamed,
                Fields::Unit => FieldsModel::Unit,
            },
        }),
        Item::Mod(m) => ItemModel::Mod(ModModel {
            attrs: m
                .attrs
                .iter()
                .map(|a| a.path.get_ident().map(|i| i.to_string()))
                .collect(),
            content: m
                .content
                .as_ref()
                .map(|(_, items)| items.iter().map(item_model).collect()),
        }),
        _ => ItemModel::Other,
    }
}

fn parsed(code: &str) -> Result<Vec<ItemModel>, String> {
    syn::parse_file(code)
        .map(|f| f.items.iter().map(item_model).collect())
        .map_err(|e| e.to_string())
}

fn sources(code: &str, lib: &str) -> ProgramSources {
    ProgramSources {
        code: code.to_string(),
        lib: Ok(lib.to_string()),
    }
}

/// The generated text with a space between the pieces that the generator
/// concatenates, the way a reprint of the whole file spaces them.
fn spaced(code: &str) -> String {
    code.replace(";pub ", "; pub ")
        .replace("}pub ", "} pub ")
        .replace("}impl ", "} impl ")
}

fn reprinted(code: &str) -> String {
    syn::parse_file(code).unwrap().to_token_stream().to_string()
}

const VESTING_LIB: &str = r#"
use anchor_lang::prelude::*;

#[program]
pub mod fuzz_example3 {
    use super::*;

    pub fn init_vesting(
        ctx: Context<InitVesting>,
        recipient: Pubkey,
        amount: u64,
    ) -> Result<()> {
        _init_vesting(ctx, recipient, amount)
    }

    pub fn withdraw_unlocked(ctx: Context<WithdrawUnlocked>) -> Result<()> {
        _withdraw_unlocked(ctx)
    }
}
"#;

const VESTING_CODE: &str = r#"
pub mod instructions {
    use super::*;

    #[derive(Accounts)]
    pub struct InitVesting<'info> {
        #[account(mut)]
        pub sender: Signer<'info>,
        #[account(mut)]
        pub sender_token_account: Account<'info, TokenAccount>,
        #[account(init, payer = sender, space = 8 + 64)]
        pub escrow: Account<'info, Escrow>,
        pub escrow_token_account: Box<Account<'info, TokenAccount>>,
        pub mint: Account<'info, Mint>,
        pub token_program: Program<'info, Token>,
        pub system_program: Program<'info, System>,
    }

    #[derive(Accounts)]
    pub struct WithdrawUnlocked<'info> {
        #[account(mut)]
        pub recipient: Signer<'info>,
        #[account(mut, close = recipient)]
        pub escrow: Option<Account<'info, Escrow>>,
        pub escrow_pda_authority: AccountInfo<'info>,
        pub unchecked: UncheckedAccount<'info>,
        pub clock: Sysvar<'info, Clock>,
    }
}
"#;

#[test]
fn vesting_snapshots_are_printed_token_text() {
    let out = generate_snapshots_code(&vec![sources(VESTING_CODE, VESTING_LIB)]);
    let code = out.code.unwrap();
    assert!(out.warnings.is_empty());
    assert_eq!(reprinted(&code), spaced(&code));
    assert!(code.starts_with(
        "use trdelnik_client :: anchor_lang :: { prelude :: * , self } ; use trdelnik_client :: fuzzing :: FuzzingError ;pub struct InitVestingSnapshot < 'info > { "
    ));
}

#[test]
fn snapshot_struct_wraps_and_unboxes_fields() {
    let out = generate_snapshots_code(&vec![sources(VESTING_CODE, VESTING_LIB)]);
    let code = out.code.unwrap();
    assert!(code.contains("pub struct InitVestingSnapshot < 'info > { pub sender : Signer < 'info > , pub sender_token_account : Account < 'info , TokenAccount > , pub escrow : Option < Account < 'info , Escrow > > , pub escrow_token_account : Account < 'info , TokenAccount > , pub mint : Account < 'info , Mint > , pub token_program : Program < 'info , Token > , pub system_program : Program < 'info , System > , }"));
    assert!(code.contains("pub struct WithdrawUnlockedSnapshot < 'info > { pub recipient : Signer < 'info > , pub escrow : Option < Account < 'info , Escrow > > , pub escrow_pda_authority : & 'info AccountInfo < 'info > , pub unchecked : UncheckedAccount < 'info > , pub clock : Sysvar < 'info , Clock > , }"));
}

#[test]
fn deserialization_reads_each_account_kind() {
    let out = generate_snapshots_code(&vec![sources(VESTING_CODE, VESTING_LIB)]);
    let code = out.code.unwrap();
    assert!(code.contains("impl < 'info > InitVestingSnapshot < 'info > { pub fn deserialize_option (accounts : & 'info mut [Option < AccountInfo < 'info > >] ,) -> core :: result :: Result < Self , FuzzingError > { let mut accounts_iter = accounts . iter () ; let sender : Signer < '_ > = accounts_iter . next () . ok_or (FuzzingError :: NotEnoughAccounts (\"sender\" . to_string ())) ? . as_ref () . map (anchor_lang :: accounts :: signer :: Signer :: try_from) . ok_or (FuzzingError :: AccountNotFound (\"sender\" . to_string ())) ? . map_err (| _ | FuzzingError :: CannotDeserializeAccount (\"sender\" . to_string ())) ? ;"));
    assert!(code.contains("let escrow : Option < anchor_lang :: accounts :: account :: Account < Escrow > > = accounts_iter . next () . ok_or (FuzzingError :: NotEnoughAccounts (\"escrow\" . to_string ())) ? . as_ref () . map (| acc | { if acc . key () != PROGRAM_ID { anchor_lang :: accounts :: account :: Account :: try_from (acc) . map_err (| _ | FuzzingError :: CannotDeserializeAccount (\"escrow\" . to_string ())) } else { Err (FuzzingError :: OptionalAccountNotProvided (\"escrow\" . to_string () ,)) } }) . transpose () . unwrap_or (None) ;"));
    assert!(code.contains("let escrow_pda_authority = accounts_iter . next () . ok_or (FuzzingError :: NotEnoughAccounts (\"escrow_pda_authority\" . to_string ())) ? . as_ref () . ok_or (FuzzingError :: AccountNotFound (\"escrow_pda_authority\" . to_string ())) ? ;"));
    assert!(code.contains("let unchecked = accounts_iter . next () . ok_or (FuzzingError :: NotEnoughAccounts (\"unchecked\" . to_string ())) ? . as_ref () . map (anchor_lang :: accounts :: unchecked_account :: UncheckedAccount :: try_from) . ok_or (FuzzingError :: AccountNotFound (\"unchecked\" . to_string ())) ? ;"));
    assert!(code.contains("let clock : Sysvar < Clock > = "));
    assert!(code.contains("Ok (Self { recipient , escrow , escrow_pda_authority , unchecked , clock }) } }"));
}

#[test]
fn shared_context_gets_type_alias() {
    let lib = r#"
#[program]
pub mod shared {
    use super::*;
    pub fn first_ix(ctx: Context<Common>) -> Result<()> { Ok(()) }
    pub fn second_ix(ctx: Context<Common>, v: u8) -> Result<()> { Ok(()) }
    pub fn third_ix(ctx: Context<Other>) -> Result<()> { Ok(()) }
}
"#;
    let code = r#"
pub struct Common<'info> { pub user: Signer<'info> }
pub struct Other<'info> { pub user: Signer<'info> }
"#;
    let out = generate_snapshots_code(&vec![sources(code, lib)]);
    let code = out.code.unwrap();
    assert_eq!(code.matches("pub struct FirstIxSnapshot").count(), 1);
    assert!(!code.contains("pub struct SecondIxSnapshot"));
    assert!(code.contains("pub struct ThirdIxSnapshot"));
    assert!(code.ends_with("pub type SecondIxSnapshot < 'info > = FirstIxSnapshot < 'info > ;"));
    assert_eq!(reprinted(&code), spaced(&code));
}

#[test]
fn missing_program_module_is_an_error() {
    let out = generate_snapshots_code(&vec![sources(VESTING_CODE, "pub mod plain { }")]);
    assert_eq!(out.code, Err("module with program attribute not found".to_string()));
}

#[test]
fn program_module_without_content_is_an_error() {
    let out = generate_snapshots_code(&vec![sources(VESTING_CODE, "#[program] pub mod outlined;")]);
    assert_eq!(out.code, Err("the content of program module is missing".to_string()));
}

#[test]
fn last_program_module_is_used() {
    let lib = r#"
#[program]
pub mod first { pub fn no_ctx() {} }
#[program]
pub mod second { pub fn withdraw_unlocked(ctx: Context<WithdrawUnlocked>) -> Result<()> { Ok(()) } }
"#;
    let out = generate_snapshots_code(&vec![sources(VESTING_CODE, lib)]);
    assert!(out.code.unwrap().contains("pub struct WithdrawUnlockedSnapshot"));
}

#[test]
fn function_without_context_is_an_error() {
    let lib = "#[program] pub mod p { pub fn lonely() -> Result<()> { Ok(()) } }";
    let out = generate_snapshots_code(&vec![sources(VESTING_CODE, lib)]);
    assert_eq!(
        out.code,
        Err("The function lonely does not have the Context parameter and is malformed.".to_string())
    );
}

#[test]
fn missing_context_struct_is_an_error() {
    let lib = "#[program] pub mod p { pub fn go(ctx: Context<Missing>) -> Result<()> { Ok(()) } }";
    let out = generate_snapshots_code(&vec![sources(VESTING_CODE, lib)]);
    assert_eq!(out.code, Err("The Context struct Missing was not found".to_string()));
}

#[test]
fn context_path_with_module_is_malformed() {
    let lib = "#[program] pub mod p { pub fn go_fast(ctx: Context<a::Missing>) -> Result<()> { Ok(()) } }";
    let out = generate_snapshots_code(&vec![sources(VESTING_CODE, lib)]);
    assert_eq!(out.code, Err("malformed parameters of GoFast instruction".to_string()));
}

#[test]
fn tuple_context_struct_is_an_error() {
    let lib = "#[program] pub mod p { pub fn go(ctx: Context<Tuple>) -> Result<()> { Ok(()) } }";
    let code = "pub struct Tuple(u8);";
    let out = generate_snapshots_code(&vec![sources(code, lib)]);
    assert_eq!(out.code, Err("Context struct parse errror.".to_string()));
}

#[test]
fn source_errors_pass_through() {
    let src = ProgramSources {
        code: VESTING_CODE.to_string(),
        lib: Err("No such file or directory (os error 2)".to_string()),
    };
    let out = generate_snapshots_code(&vec![src]);
    assert_eq!(out.code, Err("No such file or directory (os error 2)".to_string()));
    let broken = "pub struct";
    let expected = syn::parse_file(broken).unwrap_err().to_string();
    let out = generate_snapshots_code(&vec![sources(broken, VESTING_LIB)]);
    assert_eq!(out.code, Err(expected.clone()));
    let out = generate_snapshots_code(&vec![sources(VESTING_CODE, broken)]);
    assert_eq!(out.code, Err(expected));
}

#[test]
fn account_parser_errors_pass_through() {
    let lib = "#[program] pub mod p { pub fn go(ctx: Context<Bad>) -> Result<()> { Ok(()) } }";
    let code = "pub struct Bad<'info> { pub user: Signer<'info>, pub nested: Option<Inner<'info>> }";
    let out = generate_snapshots_code(&vec![sources(code, lib)]);
    assert_eq!(out.code, Err("Cannot have Optional composite accounts".to_string()));
}

#[test]
fn account_names_are_written_as_escaped_literals() {
    let lib = "#[program] pub mod p { pub fn go(ctx: Context<Marked>) -> Result<()> { Ok(()) } }";
    let code = "pub struct Marked<'info> { pub ae\u{301}: Signer<'info> }";
    let out = generate_snapshots_code(&vec![sources(code, lib)]);
    let generated = out.code.unwrap();
    assert!(generated.contains("NotEnoughAccounts (\"ae\\u{301}\" . to_string ())"));
    assert!(generated.contains("pub ae\u{301} : Signer < 'info > ,"));
}

#[test]
fn composite_field_gives_warning_and_todo() {
    let lib = "#[program] pub mod p { pub fn go(ctx: Context<Outer>) -> Result<()> { Ok(()) } }";
    let code = r#"
pub struct Outer<'info> {
    pub user: Signer<'info>,
    pub nested: Inner<'info>,
}
pub struct Inner<'info> { pub user: Signer<'info> }
"#;
    let out = generate_snapshots_code(&vec![sources(code, lib)]);
    let generated = out.code.unwrap();
    assert!(generated.contains("pub nested : Inner < 'info > ,"));
    assert!(generated.contains("let nested = todo ! () ;"));
    assert_eq!(out.warnings.len(), 1);
    assert!(out.warnings[0].starts_with(
        "\x1b[1;93mWarning\x1b[0m: The context `Outer` has a field named `nested` of composite type `Inner < 'info >`."
    ));
}

#[test]
fn programs_are_concatenated_until_first_error() {
    let lib = "#[program] pub mod p { pub fn go(ctx: Context<Outer>) -> Result<()> { Ok(()) } }";
    let code = "pub struct Outer<'info> { pub nested: Inner<'info> }";
    let good = sources(VESTING_CODE, VESTING_LIB);
    let single = generate_snapshots_code(&vec![sources(VESTING_CODE, VESTING_LIB)])
        .code
        .unwrap();
    let twice = generate_snapshots_code(&vec![
        sources(VESTING_CODE, VESTING_LIB),
        sources(VESTING_CODE, VESTING_LIB),
    ]);
    assert_eq!(twice.code.unwrap(), format!("{}{}", single, single));
    let out = generate_snapshots_code(&vec![
        sources(code, lib),
        sources(VESTING_CODE, "pub mod none {}"),
        good,
    ]);
    assert_eq!(out.code, Err("module with program attribute not found".to_string()));
    assert_eq!(out.warnings.len(), 1);
}

#[test]
fn snapshot_name_that_is_no_identifier_gives_none() {
    let lib = "#[program] pub mod p { pub fn _1st(ctx: Context<Common>) -> Result<()> { Ok(()) } }";
    let code = "pub struct Common<'info> { pub user: Signer<'info> }";
    assert!(try_generate_snapshots_code(&vec![sources(code, lib)]).is_none());
    let checked = try_generate_snapshots_code(&vec![sources(VESTING_CODE, VESTING_LIB)]).unwrap();
    let plain = generate_snapshots_code(&vec![sources(VESTING_CODE, VESTING_LIB)]);
    assert_eq!(checked.code, plain.code);
    assert_eq!(checked.warnings, plain.warnings);
}

#[test]
fn ty_to_tokens_prints_as_quote_does() {
    let path = "my :: State".to_string();
    let cases: Vec<(AccountTyModel, Option<(String, String)>)> = vec![
        (AccountTyModel::AccountInfo, None),
        (AccountTyModel::UncheckedAccount, None),
        (AccountTyModel::ProgramData, None),
        (
            AccountTyModel::SystemAccount,
            Some((
                printed_type("SystemAccount<'_>"),
                printed_path("anchor_lang::accounts::system_account::SystemAccount::try_from"),
            )),
        ),
        (
            AccountTyModel::Sysvar(SysvarModel::Rent),
            Some((
                printed_type("Sysvar<Rent>"),
                printed_path("anchor_lang::accounts::sysvar::Sysvar::from_account_info"),
            )),
        ),
        (
            AccountTyModel::Signer,
            Some((
                printed_type("Signer<'_>"),
                printed_path("anchor_lang::accounts::signer::Signer::try_from"),
            )),
        ),
        (
            AccountTyModel::Account { account_type_path: path.clone(), boxed: true },
            Some((
                printed_type("anchor_lang::accounts::account::Account<my::State>"),
                printed_path("anchor_lang::accounts::account::Account::try_from"),
            )),
        ),
        (
            AccountTyModel::AccountLoader { account_type_path: path.clone() },
            Some((
                printed_type("anchor_lang::accounts::account_loader::AccountLoader<my::State>"),
                printed_path("anchor_lang::accounts::account_loader::AccountLoader::try_from"),
            )),
        ),
        (
            AccountTyModel::Program { account_type_path: path.clone() },
            Some((
                printed_type("anchor_lang::accounts::program::Program<my::State>"),
                printed_path("anchor_lang::accounts::program::Program::try_from"),
            )),
        ),
        (
            AccountTyModel::Interface { account_type_path: path.clone() },
            Some((
                printed_type("anchor_lang::accounts::interface::Interface<my::State>"),
                printed_path("anchor_lang::accounts::interface::Interface::try_from"),
            )),
        ),
        (
            AccountTyModel::InterfaceAccount { account_type_path: path.clone(), boxed: false },
            Some((
                printed_type("anchor_lang::accounts::interface_account::InterfaceAccount<my::State>"),
                printed_path("anchor_lang::accounts::interface_account::InterfaceAccount::try_from"),
            )),
        ),
    ];
    for (ty, expected) in cases {
        assert_eq!(ty_to_tokens(&ty), expected);
    }
}

#[test]
fn sysvar_names() {
    let all = vec![
        (SysvarModel::Clock, "Clock"),
        (SysvarModel::Rent, "Rent"),
        (SysvarModel::EpochSchedule, "EpochSchedule"),
        (SysvarModel::Fees, "Fees"),
        (SysvarModel::RecentBlockhashes, "RecentBlockhashes"),
        (SysvarModel::SlotHashes, "SlotHashes"),
        (SysvarModel::SlotHistory, "SlotHistory"),
        (SysvarModel::StakeHistory, "StakeHistory"),
        (SysvarModel::Instructions, "Instructions"),
        (SysvarModel::Rewards, "Rewards"),
    ];
    for (s, name) in all {
        assert_eq!(sysvar_to_ident(&s), name);
    }
}

#[test]
fn program_attribute_is_found_among_attributes() {
    assert!(has_program_attribute(&vec![None, Some("program".to_string())]));
    assert!(!has_program_attribute(&vec![Some("derive".to_string()), None]));
    assert!(!has_program_attribute(&vec![]));
}

#[test]
fn optional_and_boxed_accounts() {
    let field = |is_optional, init, close| AccountFieldModel::Field {
        ident: "a".to_string(),
        ty: AccountTyModel::Signer,
        is_optional,
        init,
        close,
    };
    assert!(!is_optional(&field(false, false, false)));
    assert!(is_optional(&field(true, false, false)));
    assert!(is_optional(&field(false, true, false)));
    assert!(is_optional(&field(false, false, true)));
    let composite = AccountFieldModel::CompositeField { ident: "c".to_string(), init: false, close: false };
    assert!(!is_optional(&composite));
    let path = "State".to_string();
    assert!(is_boxed(&AccountTyModel::Account { account_type_path: path.clone(), boxed: true }));
    assert!(!is_boxed(&AccountTyModel::Account { account_type_path: path.clone(), boxed: false }));
    assert!(is_boxed(&AccountTyModel::InterfaceAccount { account_type_path: path, boxed: true }));
    assert!(!is_boxed(&AccountTyModel::Signer));
}

#[test]
fn inner_type_of_box_and_option() {
    let t: Type = syn::parse_str("Box<Account<'info, State>>").unwrap();
    let m = type_model(&t);
    assert_eq!(extract_inner_type(&m).unwrap().tokens, "Account < 'info , State >");
    let t: Type = syn::parse_str("std::option::Option<u8>").unwrap();
    assert_eq!(extract_inner_type(&type_model(&t)).unwrap().tokens, "u8");
    let t: Type = syn::parse_str("Vec<u8>").unwrap();
    assert!(extract_inner_type(&type_model(&t)).is_none());
    let t: Type = syn::parse_str("Option<'a>").unwrap();
    assert!(extract_inner_type(&type_model(&t)).is_none());
    let t: Type = syn::parse_str("&u8").unwrap();
    assert!(extract_inner_type(&type_model(&t)).is_none());
}

#[test]
fn spaces_are_ignored_in_prefix_test() {
    assert!(starts_with_ignoring_spaces("AccountInfo < 'info >", "AccountInfo<"));
    assert!(!starts_with_ignoring_spaces("Account < 'info , X >", "AccountInfo<"));
    assert!(!starts_with_ignoring_spaces("Acc", "AccountInfo<"));
}

#[test]
fn context_struct_found_in_nested_modules() {
    let items = parsed(
        "pub mod a { pub mod b { pub struct Deep { pub x: Signer<'info> } } } pub mod c { pub struct Deep; }",
    )
    .unwrap();
    let found = find_ctx_struct(&items, "Deep").unwrap();
    assert!(matches!(found.fields, FieldsModel::Named(_)));
    assert!(find_ctx_struct(&items, "Shallow").is_none());
    let items = parsed("pub mod a { pub struct S; } pub struct S { pub x: Signer<'info> }").unwrap();
    assert!(matches!(find_ctx_struct(&items, "S").unwrap().fields, FieldsModel::Named(_)));
}

fn printed_item(src: &str) -> String {
    syn::parse_str::<Item>(src).unwrap().to_token_stream().to_string()
}

#[test]
fn withdraw_snapshot_matches_the_template() {
    let out = generate_snapshots_code(&vec![sources(VESTING_CODE, VESTING_LIB)]);
    let code = out.code.unwrap();
    let use_statements = syn::parse_str::<syn::File>(
        "use trdelnik_client::anchor_lang::{prelude::*, self}; use trdelnik_client::fuzzing::FuzzingError;",
    )
    .unwrap()
    .to_token_stream()
    .to_string();
    assert!(code.starts_with(&use_statements));
    let snapshot_struct = printed_item(
        "pub struct WithdrawUnlockedSnapshot<'info> {
            pub recipient: Signer<'info>,
            pub escrow: Option<Account<'info, Escrow>>,
            pub escrow_pda_authority: &'info AccountInfo<'info>,
            pub unchecked: UncheckedAccount<'info>,
            pub clock: Sysvar<'info, Clock>,
        }",
    );
    assert!(code.contains(&snapshot_struct));
    let deser_impl = printed_item(
        r#"impl<'info> WithdrawUnlockedSnapshot<'info> {
            pub fn deserialize_option(
                accounts: &'info mut [Option<AccountInfo<'info>>],
            ) -> core::result::Result<Self, FuzzingError> {
                let mut accounts_iter = accounts.iter();
                let recipient: Signer<'_> = accounts_iter
                    .next()
                    .ok_or(FuzzingError::NotEnoughAccounts("recipient".to_string()))?
                    .as_ref()
                    .map(anchor_lang::accounts::signer::Signer::try_from)
                    .ok_or(FuzzingError::AccountNotFound("recipient".to_string()))?
                    .map_err(|_| FuzzingError::CannotDeserializeAccount("recipient".to_string()))?;
                let escrow:Option<anchor_lang::accounts::account::Account<Escrow>> = accounts_iter
                    .next()
                    .ok_or(FuzzingError::NotEnoughAccounts("escrow".to_string()))?
                    .as_ref()
                    .map(|acc| {
                        if acc.key() != PROGRAM_ID {
                            anchor_lang::accounts::account::Account::try_from(acc).map_err(|_| FuzzingError::CannotDeserializeAccount("escrow".to_string()))
                        } else {Err(FuzzingError::OptionalAccountNotProvided(
                                "escrow".to_string(),
                            ))
                        }
                    })
                    .transpose()
                    .unwrap_or(None);
                let escrow_pda_authority = accounts_iter
                    .next()
                    .ok_or(FuzzingError::NotEnoughAccounts("escrow_pda_authority".to_string()))?
                    .as_ref()
                    .ok_or(FuzzingError::AccountNotFound("escrow_pda_authority".to_string()))?;
                let unchecked = accounts_iter
                    .next()
                    .ok_or(FuzzingError::NotEnoughAccounts("unchecked".to_string()))?
                    .as_ref()
                    .map(anchor_lang::accounts::unchecked_account::UncheckedAccount::try_from)
                    .ok_or(FuzzingError::AccountNotFound("unchecked".to_string()))?;
                let clock: Sysvar<Clock> = accounts_iter
                    .next()
                    .ok_or(FuzzingError::NotEnoughAccounts("clock".to_string()))?
                    .as_ref()
                    .map(anchor_lang::accounts::sysvar::Sysvar::from_account_info)
                    .ok_or(FuzzingError::AccountNotFound("clock".to_string()))?
                    .map_err(|_| FuzzingError::CannotDeserializeAccount("clock".to_string()))?;
                Ok(Self {
                    recipient, escrow, escrow_pda_authority, unchecked, clock
                })
            }
        }"#,
    );
    let tail = &code[code.len() - deser_impl.len()..];
    if tail != deser_impl {
        let k = tail.chars().zip(deser_impl.chars()).take_while(|(a, b)| a == b).count();
        let a: String = tail.chars().skip(k.saturating_sub(80)).take(200).collect();
        let b: String = deser_impl.chars().skip(k.saturating_sub(80)).take(200).collect();
        panic!("DIFF at {}:\nOURS: {}\nREF:  {}", k, a, b);
    }
    let alias = printed_item("pub type SecondIxSnapshot<'info> = FirstIxSnapshot<'info>;");
    assert_eq!(alias, "pub type SecondIxSnapshot < 'info > = FirstIxSnapshot < 'info > ;");
}

/// The deserialization of one field after the templates of the generator.
fn deser_template(name: &str, optional: bool, ty: &str, method: &str) -> String {
    if optional {
        format!(
            r#"let {name}:Option<{ty}> = accounts_iter
            .next()
            .ok_or(FuzzingError::NotEnoughAccounts("{name}".to_string()))?
            .as_ref()
            .map(|acc| {{
                if acc.key() != PROGRAM_ID {{
                    {method}(acc).map_err(|_| FuzzingError::CannotDeserializeAccount("{name}".to_string()))
                }} else {{Err(FuzzingError::OptionalAccountNotProvided(
                        "{name}".to_string(),
                    ))
                }}
            }})
            .transpose()
            .unwrap_or(None);"#
        )
    } else {
        format!(
            r#"let {name}: {ty} = accounts_iter
            .next()
            .ok_or(FuzzingError::NotEnoughAccounts("{name}".to_string()))?
            .as_ref()
            .map({method})
            .ok_or(FuzzingError::AccountNotFound("{name}".to_string()))?
            .map_err(|_| FuzzingError::CannotDeserializeAccount("{name}".to_string()))?;"#
        )
    }
}

#[test]
fn mixed_snapshot_matches_the_template() {
    let lib = "#[program] pub mod p { pub fn mixed(ctx: Context<Mixed>) -> Result<()> { Ok(()) } }";
    let code = r#"
pub struct Mixed<'info> {
    pub user: Signer<'info>,
    pub opt_info: Option<AccountInfo<'info>>,
    pub opt_unchecked: Option<UncheckedAccount<'info>>,
    pub nested: Inner<'info>,
    pub mint: Box<InterfaceAccount<'info, Mint>>,
    #[account(init, payer = user, space = 8)]
    pub data: AccountLoader<'info, Big>,
    pub token_program: Interface<'info, TokenInterface>,
    pub system: SystemAccount<'info>,
}
"#;
    let out = generate_snapshots_code(&vec![sources(code, lib)]);
    let generated = out.code.unwrap();
    let use_statements = syn::parse_str::<syn::File>(
        "use trdelnik_client::anchor_lang::{prelude::*, self}; use trdelnik_client::fuzzing::FuzzingError;",
    )
    .unwrap()
    .to_token_stream()
    .to_string();
    let snapshot_struct = printed_item(
        "pub struct MixedSnapshot<'info> {
            pub user: Signer<'info>,
            pub opt_info: Option<&'info AccountInfo<'info>>,
            pub opt_unchecked: Option<UncheckedAccount<'info>>,
            pub nested: Inner<'info>,
            pub mint: InterfaceAccount<'info, Mint>,
            pub data: Option<AccountLoader<'info, Big>>,
            pub token_program: Interface<'info, TokenInterface>,
            pub system: SystemAccount<'info>,
        }",
    );
    let statements = vec![
        deser_template(
            "user",
            false,
            "Signer<'_>",
            "anchor_lang::accounts::signer::Signer::try_from",
        ),
        r#"let opt_info = accounts_iter
            .next()
            .ok_or(FuzzingError::NotEnoughAccounts("opt_info".to_string()))?
            .as_ref();"#
            .to_string(),
        r#"let opt_unchecked = accounts_iter
            .next()
            .ok_or(FuzzingError::NotEnoughAccounts("opt_unchecked".to_string()))?
            .as_ref()
            .map(anchor_lang::accounts::unchecked_account::UncheckedAccount::try_from);"#
            .to_string(),
        "let nested = todo!();".to_string(),
        deser_template(
            "mint",
            false,
            "anchor_lang::accounts::interface_account::InterfaceAccount<Mint>",
            "anchor_lang::accounts::interface_account::InterfaceAccount::try_from",
        ),
        deser_template(
            "data",
            true,
            "anchor_lang::accounts::account_loader::AccountLoader<Big>",
            "anchor_lang::accounts::account_loader::AccountLoader::try_from",
        ),
        deser_template(
            "token_program",
            false,
            "anchor_lang::accounts::interface::Interface<TokenInterface>",
            "anchor_lang::accounts::interface::Interface::try_from",
        ),
        deser_template(
            "system",
            false,
            "SystemAccount<'_>",
            "anchor_lang::accounts::system_account::SystemAccount::try_from",
        ),
    ];
    let deser_impl = printed_item(&format!(
        "impl<'info> MixedSnapshot<'info> {{
            pub fn deserialize_option(
                accounts: &'info mut [Option<AccountInfo<'info>>],
            ) -> core::result::Result<Self, FuzzingError> {{
                let mut accounts_iter = accounts.iter();
                {}
                Ok(Self {{
                    user, opt_info, opt_unchecked, nested, mint, data, token_program, system
                }})
            }}
        }}",
        statements.join("\n")
    ));
    assert_eq!(generated, format!("{}{}{}", use_statements, snapshot_struct, deser_impl));
    assert_eq!(out.warnings.len(), 1);
}

#[test]
fn fields_that_panic_the_account_parser_give_none() {
    let lib = "#[program] pub mod p { pub fn go(ctx: Context<Arr>) -> Result<()> { Ok(()) } }";
    for ty in ["Option<[u8; 32]>", "Option<&'info Signer<'info>>", "Box<Account<'info, X> + Send>"] {
        let code = format!("pub struct Arr<'info> {{ pub user: Signer<'info>, pub a: {} }}", ty);
        assert!(try_generate_snapshots_code(&vec![sources(&code, lib)]).is_none(), "{}", ty);
    }
    let code = "pub struct Arr<'info> { pub user: Signer<'info>, pub a: Option<Vec<u8>> }";
    let out = try_generate_snapshots_code(&vec![sources(code, lib)]).unwrap();
    assert_eq!(out.code, Err("Cannot have Optional composite accounts".to_string()));
}

#[test]
fn panicking_field_after_a_rejected_one_is_not_reached() {
    let lib = "#[program] pub mod p { pub fn go(ctx: Context<Arr>) -> Result<()> { Ok(()) } }";
    let code = "pub struct Arr<'info> { pub a: Option<Vec<u8>>, pub b: Option<[u8; 32]> }";
    let out = try_generate_snapshots_code(&vec![sources(code, lib)]).unwrap();
    assert_eq!(out.code, Err("Cannot have Optional composite accounts".to_string()));
    let code = "pub struct Arr<'info> { pub a: Vec<u8>, pub b: Option<[u8; 32]> }";
    assert!(try_generate_snapshots_code(&vec![sources(code, lib)]).is_none());
}

#[test]
fn errors_before_a_bad_name_are_reported() {
    let lib = "#[program] pub mod p { pub fn lonely() {} pub fn _1st(ctx: Context<Common>) -> Result<()> { Ok(()) } }";
    let code = "pub struct Common<'info> { pub user: Signer<'info> }";
    let out = try_generate_snapshots_code(&vec![sources(code, lib)]).unwrap();
    assert_eq!(
        out.code,
        Err("The function lonely does not have the Context parameter and is malformed.".to_string())
    );
    let bad = "#[program] pub mod p { pub fn _1st(ctx: Context<Common>) -> Result<()> { Ok(()) } }";
    let out = try_generate_snapshots_code(&vec![
        sources(code, "pub mod none {}"),
        sources(code, bad),
    ])
    .unwrap();
    assert_eq!(out.code, Err("module with program attribute not found".to_string()));
}
