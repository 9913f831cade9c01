use quote::ToTokens;
use trdelnik::fuzzer_generator::{generate_source_code, try_generate_source_code};
use trdelnik::idl::{Idl, IdlAccountGroup, IdlInstruction, IdlName, IdlProgram};

fn name(snake: &str, upper: &str) -> IdlName {
    IdlName {
        snake_case: snake.to_string(),
        upper_camel_case: upper.to_string(),
    }
}

fn items(list: &[(&str, &str)]) -> Vec<(String, String)> {
    list.iter()
        .map(|(a, b)| (a.to_string(), b.to_string()))
        .collect()
}

fn vesting_program() -> IdlProgram {
    IdlProgram {
        name: name("fuzz-example3", "FuzzExample3"),
        instruction_account_pairs: vec![
            (
                IdlInstruction {
                    name: name("init_vesting", "InitVesting"),
                    parameters: items(&[
                        ("recipient", "Pubkey"),
                        ("amount", "u64"),
                        ("start_at", "u64"),
                        ("end_at", "u64"),
                        ("interval", "u64"),
                    ]),
                },
                IdlAccountGroup {
                    name: name("init_vesting", "InitVesting"),
                    accounts: items(&[
                        ("sender", "AccountId"),
                        ("sender_token_account", "AccountId"),
                        ("escrow", "AccountId"),
                        ("mint", "AccountId"),
                        ("system_program", "AccountId"),
                    ]),
                },
            ),
            (
                IdlInstruction {
                    name: name("withdraw_unlocked", "WithdrawUnlocked"),
                    parameters: items(&[]),
                },
                IdlAccountGroup {
                    name: name("withdraw_unlocked", "WithdrawUnlocked"),
                    accounts: items(&[
                        ("recipient", "AccountId"),
                        ("escrow", "AccountId"),
                        ("mint", "AccountId"),
                    ]),
                },
            ),
        ],
    }
}

fn reprinted(code: &str) -> String {
    let file = syn::parse_file(code).unwrap();
    file.to_token_stream().to_string()
}

#[test]
fn generated_module_is_printed_token_text() {
    let idl = Idl {
        programs: vec![vesting_program()],
    };
    let code = generate_source_code(&idl);
    assert_eq!(reprinted(&code), code);
}

#[test]
fn fuzz_accounts_are_sorted_and_distinct() {
    let idl = Idl {
        programs: vec![vesting_program()],
    };
    let code = generate_source_code(&idl);
    assert!(code.contains("pub struct FuzzAccounts { escrow : AccountsStorage < todo ! () > , mint : AccountsStorage < todo ! () > , recipient : AccountsStorage < todo ! () > , sender : AccountsStorage < todo ! () > , sender_token_account : AccountsStorage < todo ! () > , system_program : AccountsStorage < todo ! () > }"));
}

#[test]
fn pubkey_parameter_becomes_account_id() {
    let idl = Idl {
        programs: vec![vesting_program()],
    };
    let code = generate_source_code(&idl);
    assert!(code.contains("pub struct InitVestingData { pub recipient : AccountId , pub amount : u64 , pub start_at : u64 , pub end_at : u64 , pub interval : u64 }"));
    assert!(code.starts_with("pub mod fuzz_example3_fuzz_instructions { "));
}

#[test]
fn rejected_names_give_none() {
    let mut program = vesting_program();
    program.instruction_account_pairs[0].0.parameters[1].1 = "u64 u64".to_string();
    let idl = Idl {
        programs: vec![program],
    };
    assert!(try_generate_source_code(&idl).is_none());
    let idl = Idl {
        programs: vec![vesting_program()],
    };
    assert_eq!(try_generate_source_code(&idl), Some(generate_source_code(&idl)));
}

fn fuzz_accounts_section(code: &str) -> &str {
    let start = code.find("pub struct FuzzAccounts").unwrap();
    let end = code[start..].find(" impl FuzzAccounts").unwrap();
    &code[start..start + end]
}

#[test]
fn fuzz_accounts_do_not_depend_on_instruction_order() {
    let program = vesting_program();
    let mut reversed = vesting_program();
    reversed.instruction_account_pairs.reverse();
    let a = generate_source_code(&Idl { programs: vec![program] });
    let b = generate_source_code(&Idl { programs: vec![reversed] });
    assert_eq!(fuzz_accounts_section(&a), fuzz_accounts_section(&b));
    assert_ne!(a, b);
}

#[test]
fn pubkey_parameters_join_the_accounts() {
    let mut program = vesting_program();
    program.instruction_account_pairs[0].0.parameters[0].0 = "beneficiary".to_string();
    program.instruction_account_pairs[0].0.parameters[1].1 = "solana_program::pubkey::Pubkey".to_string();
    let code = generate_source_code(&Idl { programs: vec![program] });
    assert_eq!(
        fuzz_accounts_section(&code),
        "pub struct FuzzAccounts { amount : AccountsStorage < todo ! () > , beneficiary : AccountsStorage < todo ! () > , escrow : AccountsStorage < todo ! () > , mint : AccountsStorage < todo ! () > , recipient : AccountsStorage < todo ! () > , sender : AccountsStorage < todo ! () > , sender_token_account : AccountsStorage < todo ! () > , system_program : AccountsStorage < todo ! () > }"
    );
    assert!(code.contains("pub struct InitVestingData { pub beneficiary : AccountId , pub amount : AccountId , pub start_at : u64 , pub end_at : u64 , pub interval : u64 }"));
}

#[test]
fn programs_are_generated_in_order() {
    let other = || {
        let mut p = vesting_program();
        p.name = name("other", "Other");
        p
    };
    let first_code = generate_source_code(&Idl { programs: vec![vesting_program()] });
    let second_code = generate_source_code(&Idl { programs: vec![other()] });
    let both = generate_source_code(&Idl { programs: vec![vesting_program(), other()] });
    assert_eq!(both, format!("{}{}", first_code, second_code));
    assert!(second_code.starts_with("pub mod other_fuzz_instructions { "));
    assert!(second_code.contains("type IxData = other :: instruction :: InitVesting ;"));
}

#[test]
fn instruction_without_parameters_or_accounts() {
    let program = IdlProgram {
        name: name("empty", "Empty"),
        instruction_account_pairs: vec![(
            IdlInstruction { name: name("noop", "Noop"), parameters: vec![] },
            IdlAccountGroup { name: name("noop", "Noop"), accounts: vec![] },
        )],
    };
    let code = generate_source_code(&Idl { programs: vec![program] });
    assert_eq!(reprinted(&code), code);
    assert!(code.contains("pub struct NoopAccounts { }"));
    assert!(code.contains("pub struct NoopData { }"));
    assert!(code.contains("pub struct FuzzAccounts { }"));
    assert!(code.contains("let data = empty :: instruction :: Noop { } ;"));
    assert_eq!(generate_source_code(&Idl { programs: vec![] }), "");
}

#[test]
fn keyword_or_invalid_names_give_none() {
    let mut program = vesting_program();
    program.instruction_account_pairs[1].1.accounts[0].0 = "type".to_string();
    assert!(try_generate_source_code(&Idl { programs: vec![program] }).is_none());
    let mut program = vesting_program();
    program.name.snake_case = "1st".to_string();
    assert!(try_generate_source_code(&Idl { programs: vec![program] }).is_none());
}

#[test]
fn parameter_types_are_printed_as_tokens() {
    let mut program = vesting_program();
    program.instruction_account_pairs[0].0.parameters[2].1 = "Option<Vec<u8>>".to_string();
    program.instruction_account_pairs[0].0.parameters[3].1 = "[u8;32]".to_string();
    let code = generate_source_code(&Idl { programs: vec![program] });
    assert!(code.contains("pub start_at : Option < Vec < u8 > > , pub end_at : [u8 ; 32] ,"));
    assert_eq!(reprinted(&code), code);
}

/// The module of one program written as source text after the template of
/// the generator, parsed and printed by `syn`.
fn reference_module(p: &IdlProgram) -> String {
    let m = p.name.snake_case.replace('-', "_");
    let mut variants = Vec::new();
    let mut data = String::new();
    let mut impls = String::new();
    let mut accounts = std::collections::BTreeSet::new();
    for (ix, group) in &p.instruction_account_pairs {
        let u = &ix.name.upper_camel_case;
        variants.push(format!("{u}({u})"));
        let params: Vec<String> = ix
            .parameters
            .iter()
            .map(|(n, t)| {
                let last = match syn::parse_str::<syn::Type>(t).unwrap() {
                    syn::Type::Path(tp) => tp.path.segments.last().unwrap().ident.to_string(),
                    _ => String::new(),
                };
                if last == "Pubkey" {
                    accounts.insert(n.clone());
                    format!("pub {n}: AccountId")
                } else {
                    format!("pub {n}: {t}")
                }
            })
            .collect();
        let accs: Vec<String> = group
            .accounts
            .iter()
            .map(|(n, _)| {
                accounts.insert(n.clone());
                format!("pub {n}: AccountId")
            })
            .collect();
        data.push_str(&format!(
            "#[derive(Arbitrary, Clone)] pub struct {u} {{ pub accounts: {u}Accounts, pub data: {u}Data }}
             #[derive(Arbitrary, Clone)] pub struct {u}Accounts {{ {} }}
             #[derive(Arbitrary, Clone)] pub struct {u}Data {{ {} }}",
            accs.join(","),
            params.join(",")
        ));
        let todo_params: Vec<String> =
            ix.parameters.iter().map(|(n, _)| format!("{n}: todo!()")).collect();
        let todo_accs: Vec<String> =
            group.accounts.iter().map(|(n, _)| format!("{n}: todo!()")).collect();
        impls.push_str(&format!(
            "impl<'info> IxOps<'info> for {u} {{
                type IxData = {m}::instruction::{u};
                type IxAccounts = FuzzAccounts;
                type IxSnapshot = {u}Snapshot<'info>;
                fn get_data(
                    &self,
                    _client: &mut impl FuzzClient,
                    _fuzz_accounts: &mut FuzzAccounts,
                ) -> Result<Self::IxData, FuzzingError> {{
                    let data = {m}::instruction::{u} {{ {} }};
                    Ok(data)
                }}
                fn get_accounts(
                &self,
                client: &mut impl FuzzClient,
                fuzz_accounts: &mut FuzzAccounts,
                ) -> Result<(Vec<Keypair>, Vec<AccountMeta>), FuzzingError> {{
                    let signers = vec![todo!()];
                    let acc_meta = {m}::accounts::{u} {{ {} }}.to_account_metas(None);
                    Ok((signers, acc_meta))
                }}
            }}",
            todo_params.join(","),
            todo_accs.join(",")
        ));
    }
    let storage: Vec<String> =
        accounts.iter().map(|n| format!("{n}: AccountsStorage<todo!()>")).collect();
    let src = format!(
        "pub mod {m}_fuzz_instructions {{
            use crate::accounts_snapshots::*;
            #[derive(Arbitrary, Clone, DisplayIx, FuzzTestExecutor, FuzzDeserialize)]
            pub enum FuzzInstruction {{ {} }}
            {data}
            {impls}
            #[doc = r\" Use AccountsStorage<T> where T can be one of:\"]
            #[doc = r\" Keypair, PdaStore, TokenStore, MintStore, ProgramStore\"]
            #[derive(Default)]
            pub struct FuzzAccounts {{ {} }}
            impl FuzzAccounts {{ pub fn new() -> Self {{ Default::default() }} }}
        }}",
        variants.join(","),
        storage.join(",")
    );
    syn::parse_str::<syn::ItemMod>(&src).unwrap().to_token_stream().to_string()
}

#[test]
fn module_matches_the_template() {
    let mut typed = vesting_program();
    typed.instruction_account_pairs[0].0.parameters[2].1 = "Option<Vec<u8>>".to_string();
    typed.instruction_account_pairs[0].0.parameters[1].1 = "solana_program::pubkey::Pubkey".to_string();
    for program in [vesting_program(), typed] {
        let expected = reference_module(&program);
        let code = generate_source_code(&Idl { programs: vec![program] });
        assert_eq!(code, expected);
    }
}

#[test]
fn names_with_spaces_or_comments_give_none() {
    let mut program = vesting_program();
    program.instruction_account_pairs[0].1.accounts[0].0 = "sender // note".to_string();
    assert!(try_generate_source_code(&Idl { programs: vec![program] }).is_none());
    let mut program = vesting_program();
    program.instruction_account_pairs[0].0.parameters[1].0 = " amount".to_string();
    assert!(try_generate_source_code(&Idl { programs: vec![program] }).is_none());
    let mut program = vesting_program();
    program.instruction_account_pairs[0].0.parameters[1].0 = "r#type".to_string();
    assert!(try_generate_source_code(&Idl { programs: vec![program] }).is_some());
}
