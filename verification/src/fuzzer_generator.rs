//! Generation of `fuzz_instructions.rs`: for each program, a module with
//! the fuzzed instruction enum, one data type per instruction, the
//! instruction operations to be filled in, and the storage of all
//! accounts that the instructions take.
//!
//! The source is produced as token text: tokens separated by one space,
//! brace groups written `{ }` when empty and `{ .. }` otherwise, the way
//! a token stream prints.
use vstd::prelude::*;
use crate::idl::{Idl, IdlAccountGroup, IdlInstruction, IdlProgram};
use crate::source::{last_segment_ident, parse_type, type_path_last_ident, type_tokens};
use crate::syntax::{is_rust_ident, rust_ident};
use crate::syntax_model::TypeModel;
use crate::text::{
    append_brace, brace, concat, insert_sorted, join, lemma_concat_append, lemma_concat_take,
    lemma_join_take, lemma_sorted_list_exists, lemma_sorted_list_is, lemma_sorted_no_duplicates,
    same_text, sorted_list, strictly_sorted,
};

verus! {

pub open spec fn upper_name(pair: (IdlInstruction, IdlAccountGroup)) -> Seq<char> {
    pair.0.name.upper_camel_case@
}

/// `prefix name suffix` for each `(name, type)` item.
pub open spec fn named_items(items: Seq<(String, String)>, prefix: Seq<char>, suffix: Seq<char>) -> Seq<
    Seq<char>,
> {
    Seq::new(items.len(), |i: int| prefix + items[i].0@ + suffix)
}

/// The enum variant `U (U)` of an instruction.
pub open spec fn variant_text(u: Seq<char>) -> Seq<char> {
    u + " ("@ + u + ")"@
}

pub open spec fn variant_items(pairs: Seq<(IdlInstruction, IdlAccountGroup)>) -> Seq<Seq<char>> {
    Seq::new(pairs.len(), |i: int| variant_text(upper_name(pairs[i])))
}

/// The enum of all fuzzed instructions.
pub open spec fn enum_text(pairs: Seq<(IdlInstruction, IdlAccountGroup)>) -> Seq<char> {
    "pub enum FuzzInstruction "@ + brace(join(variant_items(pairs), " , "@))
}

pub open spec fn derive_arbitrary() -> Seq<char> {
    "# [derive (Arbitrary , Clone)] "@
}

/// The type of a parameter in the generated data: a public key becomes an
/// account id, any other type is written as `syn` prints it.
pub open spec fn param_type(ty: Seq<char>) -> Seq<char> {
    if type_path_last_ident(ty) == Some("Pubkey"@) {
        "AccountId"@
    } else {
        type_tokens(ty)->0
    }
}

pub open spec fn param_items(params: Seq<(String, String)>) -> Seq<Seq<char>> {
    Seq::new(params.len(), |i: int| "pub "@ + params[i].0@ + " : "@ + param_type(params[i].1@))
}

/// The instruction struct holding its accounts and data.
pub open spec fn ix_struct_text(u: Seq<char>) -> Seq<char> {
    derive_arbitrary() + "pub struct "@ + u + " { pub accounts : "@ + u + "Accounts , pub data : "@
        + u + "Data }"@
}

/// The struct of an instruction's accounts, one account id each.
pub open spec fn accounts_struct_text(u: Seq<char>, accounts: Seq<(String, String)>) -> Seq<char> {
    derive_arbitrary() + "pub struct "@ + u + "Accounts "@ + brace(
        join(named_items(accounts, "pub "@, " : AccountId"@), " , "@),
    )
}

/// The struct of an instruction's parameters.
pub open spec fn data_struct_text(u: Seq<char>, params: Seq<(String, String)>) -> Seq<char> {
    derive_arbitrary() + "pub struct "@ + u + "Data "@ + brace(join(param_items(params), " , "@))
}

/// The three data types of one instruction.
#[verifier::opaque]
pub open spec fn instruction_data_text(pair: (IdlInstruction, IdlAccountGroup)) -> Seq<char> {
    let u = upper_name(pair);
    ix_struct_text(u) + " "@ + accounts_struct_text(u, pair.1.accounts@) + " "@
        + data_struct_text(u, pair.0.parameters@)
}

/// The `IxOps` implementation of one instruction, with `todo!()` for
/// every value the user fills in.
#[verifier::opaque]
pub open spec fn ixops_impl_text(m: Seq<char>, pair: (IdlInstruction, IdlAccountGroup)) -> Seq<
    char,
> {
    let u = upper_name(pair);
    "impl < 'info > IxOps < 'info > for "@ + u + " { type IxData = "@ + m + " :: instruction :: "@
        + u + " ; type IxAccounts = FuzzAccounts ; type IxSnapshot = "@ + u
        + "Snapshot < 'info > ; fn get_data (& self , _client : & mut impl FuzzClient , _fuzz_accounts : & mut FuzzAccounts ,) -> Result < Self :: IxData , FuzzingError > { let data = "@
        + m + " :: instruction :: "@ + u + " "@ + brace(
        join(named_items(pair.0.parameters@, ""@, " : todo ! ()"@), " , "@),
    )
        + " ; Ok (data) } fn get_accounts (& self , client : & mut impl FuzzClient , fuzz_accounts : & mut FuzzAccounts ,) -> Result < (Vec < Keypair > , Vec < AccountMeta >) , FuzzingError > { let signers = vec ! [todo ! ()] ; let acc_meta = "@
        + m + " :: accounts :: "@ + u + " "@ + brace(
        join(named_items(pair.1.accounts@, ""@, " : todo ! ()"@), " , "@),
    ) + " . to_account_metas (None) ; Ok ((signers , acc_meta)) } }"@
}

/// The names in the first component of each item.
pub open spec fn first_names(items: Seq<(String, String)>) -> Set<Seq<char>>
    decreases items.len(),
{
    if items.len() == 0 {
        Set::empty()
    } else {
        first_names(items.drop_last()).insert(items.last().0@)
    }
}

pub open spec fn is_pubkey_type(ty: Seq<char>) -> bool {
    type_path_last_ident(ty) == Some("Pubkey"@)
}

/// The names of the parameters whose type is a public key.
pub open spec fn pubkey_names(params: Seq<(String, String)>) -> Set<Seq<char>>
    decreases params.len(),
{
    if params.len() == 0 {
        Set::empty()
    } else if is_pubkey_type(params.last().1@) {
        pubkey_names(params.drop_last()).insert(params.last().0@)
    } else {
        pubkey_names(params.drop_last())
    }
}

/// Every account that some instruction takes, and every parameter that
/// is a public key.
pub open spec fn fuzz_account_set(pairs: Seq<(IdlInstruction, IdlAccountGroup)>) -> Set<Seq<char>>
    decreases pairs.len(),
{
    if pairs.len() == 0 {
        Set::empty()
    } else {
        fuzz_account_set(pairs.drop_last()).union(first_names(pairs.last().1.accounts@)).union(
            pubkey_names(pairs.last().0.parameters@),
        )
    }
}

/// Whether the instruction takes an account named `n`, or has a
/// public-key parameter named `n`.
pub open spec fn names_account(pair: (IdlInstruction, IdlAccountGroup), n: Seq<char>) -> bool {
    ||| exists|j: int|
        0 <= j < pair.1.accounts@.len() && (#[trigger] pair.1.accounts@[j]).0@ == n
    ||| exists|j: int|
        0 <= j < pair.0.parameters@.len() && (#[trigger] pair.0.parameters@[j]).0@ == n
            && is_pubkey_type(pair.0.parameters@[j].1@)
}

pub proof fn lemma_first_names_contains(items: Seq<(String, String)>, n: Seq<char>)
    ensures
        first_names(items).finite(),
        first_names(items).contains(n) <==> exists|j: int|
            0 <= j < items.len() && (#[trigger] items[j]).0@ == n,
    decreases items.len(),
{
    if items.len() > 0 {
        let init = items.drop_last();
        lemma_first_names_contains(init, n);
        if first_names(init).contains(n) {
            let j = choose|j: int| 0 <= j < init.len() && (#[trigger] init[j]).0@ == n;
            assert(items[j] == init[j]);
        }
        if exists|j: int| 0 <= j < items.len() && (#[trigger] items[j]).0@ == n {
            let j = choose|j: int| 0 <= j < items.len() && (#[trigger] items[j]).0@ == n;
            if j < items.len() - 1 {
                assert(init[j] == items[j]);
            }
        }
    }
}

pub proof fn lemma_pubkey_names_contains(params: Seq<(String, String)>, n: Seq<char>)
    ensures
        pubkey_names(params).finite(),
        pubkey_names(params).contains(n) <==> exists|j: int|
            0 <= j < params.len() && (#[trigger] params[j]).0@ == n && is_pubkey_type(params[j].1@),
    decreases params.len(),
{
    if params.len() > 0 {
        let init = params.drop_last();
        lemma_pubkey_names_contains(init, n);
        if pubkey_names(init).contains(n) {
            let j = choose|j: int|
                0 <= j < init.len() && (#[trigger] init[j]).0@ == n && is_pubkey_type(init[j].1@);
            assert(params[j] == init[j]);
        }
        if exists|j: int|
            0 <= j < params.len() && (#[trigger] params[j]).0@ == n && is_pubkey_type(params[j].1@) {
            let j = choose|j: int|
                0 <= j < params.len() && (#[trigger] params[j]).0@ == n && is_pubkey_type(
                    params[j].1@,
                );
            if j < params.len() - 1 {
                assert(init[j] == params[j]);
            }
        }
    }
}

/// The names of the account storage are exactly those that some
/// instruction takes as an account or as a public-key parameter, and
/// there are finitely many of them.
pub proof fn lemma_fuzz_account_set_members(
    pairs: Seq<(IdlInstruction, IdlAccountGroup)>,
    n: Seq<char>,
)
    ensures
        fuzz_account_set(pairs).finite(),
        fuzz_account_set(pairs).contains(n) <==> exists|i: int|
            0 <= i < pairs.len() && names_account(#[trigger] pairs[i], n),
    decreases pairs.len(),
{
    if pairs.len() > 0 {
        let init = pairs.drop_last();
        let last = pairs.last();
        lemma_fuzz_account_set_members(init, n);
        lemma_first_names_contains(last.1.accounts@, n);
        lemma_pubkey_names_contains(last.0.parameters@, n);
        if fuzz_account_set(init).contains(n) {
            let i = choose|i: int| 0 <= i < init.len() && names_account(#[trigger] init[i], n);
            assert(pairs[i] == init[i]);
        }
        if names_account(last, n) {
            assert(names_account(pairs[pairs.len() - 1], n));
        }
        if exists|i: int| 0 <= i < pairs.len() && names_account(#[trigger] pairs[i], n) {
            let i = choose|i: int| 0 <= i < pairs.len() && names_account(#[trigger] pairs[i], n);
            if i < pairs.len() - 1 {
                assert(init[i] == pairs[i]);
            }
        }
    }
}

/// The fields of the generated account storage are ascending, free of
/// repeats, and are exactly the names that some instruction takes as an
/// account or as a public-key parameter.
pub proof fn lemma_fuzz_accounts_fields(pairs: Seq<(IdlInstruction, IdlAccountGroup)>)
    ensures
        strictly_sorted(sorted_list(fuzz_account_set(pairs))),
        sorted_list(fuzz_account_set(pairs)).no_duplicates(),
        forall|n: Seq<char>|
            #![trigger sorted_list(fuzz_account_set(pairs)).contains(n)]
            sorted_list(fuzz_account_set(pairs)).contains(n) <==> exists|i: int|
                0 <= i < pairs.len() && names_account(#[trigger] pairs[i], n),
{
    let s = fuzz_account_set(pairs);
    lemma_fuzz_account_set_members(pairs, Seq::empty());
    lemma_sorted_list_exists(s);
    lemma_sorted_no_duplicates(sorted_list(s));
    assert forall|n: Seq<char>|
        sorted_list(s).contains(n) <==> exists|i: int|
            0 <= i < pairs.len() && names_account(#[trigger] pairs[i], n) by {
        lemma_fuzz_account_set_members(pairs, n);
        assert(sorted_list(s).to_set().contains(n) == sorted_list(s).contains(n));
    }
}

/// The account storage does not depend on the order of the instructions,
/// nor on instructions that repeat: two programs with the same
/// instructions get the same storage.
pub proof fn lemma_fuzz_accounts_order_independent(
    a: Seq<(IdlInstruction, IdlAccountGroup)>,
    b: Seq<(IdlInstruction, IdlAccountGroup)>,
)
    requires
        a.to_set() == b.to_set(),
    ensures
        fuzz_accounts_text(sorted_list(fuzz_account_set(a))) == fuzz_accounts_text(
            sorted_list(fuzz_account_set(b)),
        ),
{
    assert(fuzz_account_set(a) =~= fuzz_account_set(b)) by {
        assert forall|n: Seq<char>| fuzz_account_set(a).contains(n) implies fuzz_account_set(
            b,
        ).contains(n) by {
            lemma_fuzz_account_set_members(a, n);
            lemma_fuzz_account_set_members(b, n);
            let i = choose|i: int| 0 <= i < a.len() && names_account(#[trigger] a[i], n);
            assert(a.to_set().contains(a[i]));
            assert(b.to_set().contains(a[i]));
            let k = choose|k: int| 0 <= k < b.len() && b[k] == a[i];
            assert(names_account(b[k], n));
        }
        assert forall|n: Seq<char>| fuzz_account_set(b).contains(n) implies fuzz_account_set(
            a,
        ).contains(n) by {
            lemma_fuzz_account_set_members(a, n);
            lemma_fuzz_account_set_members(b, n);
            let i = choose|i: int| 0 <= i < b.len() && names_account(#[trigger] b[i], n);
            assert(b.to_set().contains(b[i]));
            assert(a.to_set().contains(b[i]));
            let k = choose|k: int| 0 <= k < a.len() && a[k] == b[i];
            assert(names_account(a[k], n));
        }
    }
}

/// The storage of all accounts, one field per distinct name in ascending
/// order, and its constructor.
#[verifier::opaque]
pub open spec fn fuzz_accounts_text(names: Seq<Seq<char>>) -> Seq<char> {
    "# [doc = r\" Use AccountsStorage<T> where T can be one of:\"] # [doc = r\" Keypair, PdaStore, TokenStore, MintStore, ProgramStore\"] # [derive (Default)] pub struct FuzzAccounts "@
        + brace(
        join(Seq::new(names.len(), |i: int| names[i] + " : AccountsStorage < todo ! () >"@), " , "@),
    ) + " impl FuzzAccounts { pub fn new () -> Self { Default :: default () } }"@
}

/// `s` with every `-` replaced by `_`.
pub open spec fn dashes_to_underscores(s: Seq<char>) -> Seq<char> {
    s.map_values(|c: char| if c == '-' { '_' } else { c })
}

/// Replaces every `-` of `s` by `_`.
fn replace_dashes(s: &str) -> (r: String)
    ensures
        r@ == dashes_to_underscores(s@),
{
    let n = s.unicode_len();
    let mut r = String::new();
    let mut i: usize = 0;
    while i < n
        invariant
            n == s@.len(),
            i <= n,
            r@ == dashes_to_underscores(s@.subrange(0, i as int)),
        decreases n - i,
    {
        let c = s.get_char(i);
        if c == '-' {
            r.append("_");
        } else {
            r.append(s.substring_char(i, i + 1));
        }
        proof {
            reveal_strlit("_");
            assert(s@.subrange(0, i + 1) =~= s@.subrange(0, i as int).push(c));
            assert(dashes_to_underscores(s@.subrange(0, i + 1)) =~= dashes_to_underscores(
                s@.subrange(0, i as int),
            ).push(if c == '-' { '_' } else { c }));
        }
        i = i + 1;
    }
    assert(s@.subrange(0, n as int) =~= s@);
    r
}

/// The module name of a program: its snake-case name with `_` for `-`.
pub open spec fn program_module_name(p: IdlProgram) -> Seq<char> {
    dashes_to_underscores(p.name.snake_case@)
}

/// The generated module of one program.
#[verifier::opaque]
pub open spec fn program_module_text(p: IdlProgram) -> Seq<char> {
    let m = program_module_name(p);
    let pairs = p.instruction_account_pairs@;
    "pub mod "@ + m
        + "_fuzz_instructions { use crate :: accounts_snapshots :: * ; # [derive (Arbitrary , Clone , DisplayIx , FuzzTestExecutor , FuzzDeserialize)] "@
        + enum_text(pairs) + concat(Seq::new(pairs.len(), |i: int| " "@ + instruction_data_text(pairs[i])))
        + concat(Seq::new(pairs.len(), |i: int| " "@ + ixops_impl_text(m, pairs[i]))) + " "@
        + fuzz_accounts_text(sorted_list(fuzz_account_set(pairs))) + " }"@
}

/// The fuzzed instruction enum of a program's module has one variant per
/// instruction, in order, each named after the instruction itself (the
/// name of the struct generated for it), whatever its accounts group is
/// called: the j-th variant is `N (N)` with `N` the UpperCamelCase name of
/// the j-th instruction.
pub proof fn lemma_fuzz_instruction_variants(p: IdlProgram)
    ensures
        ("pub mod "@ + dashes_to_underscores(p.name.snake_case@)
            + "_fuzz_instructions { use crate :: accounts_snapshots :: * ; # [derive (Arbitrary , Clone , DisplayIx , FuzzTestExecutor , FuzzDeserialize)] "@
            + "pub enum FuzzInstruction "@ + brace(
            join(
                Seq::new(
                    p.instruction_account_pairs@.len(),
                    |j: int|
                        p.instruction_account_pairs@[j].0.name.upper_camel_case@ + " ("@
                            + p.instruction_account_pairs@[j].0.name.upper_camel_case@ + ")"@,
                ),
                " , "@,
            ),
        )).is_prefix_of(program_module_text(p)),
{
    reveal(program_module_text);
    let m = program_module_name(p);
    let pairs = p.instruction_account_pairs@;
    let named = Seq::new(
        pairs.len(),
        |j: int| pairs[j].0.name.upper_camel_case@ + " ("@ + pairs[j].0.name.upper_camel_case@ + ")"@,
    );
    assert(variant_items(pairs) =~= named);
    let head = "pub mod "@ + m
        + "_fuzz_instructions { use crate :: accounts_snapshots :: * ; # [derive (Arbitrary , Clone , DisplayIx , FuzzTestExecutor , FuzzDeserialize)] "@;
    let e = "pub enum FuzzInstruction "@ + brace(join(named, " , "@));
    let a = concat(Seq::new(pairs.len(), |i: int| " "@ + instruction_data_text(pairs[i])));
    let b = concat(Seq::new(pairs.len(), |i: int| " "@ + ixops_impl_text(m, pairs[i])));
    let c = fuzz_accounts_text(sorted_list(fuzz_account_set(pairs)));
    let rest = a + b + " "@ + c + " }"@;
    let whole = head + "pub enum FuzzInstruction "@ + brace(join(named, " , "@));
    assert(program_module_text(p) =~= head + e + rest);
    assert(head + e + rest =~= whole + rest);
    assert(whole.is_prefix_of(whole + rest));
}

/// The struct generated for an instruction carries the instruction's own
/// UpperCamelCase name, the name of its enum variant, and holds the
/// instruction's accounts and data types of that name.
pub proof fn lemma_instruction_struct_named(pair: (IdlInstruction, IdlAccountGroup))
    ensures
        ("# [derive (Arbitrary , Clone)] "@ + "pub struct "@ + pair.0.name.upper_camel_case@
            + " { pub accounts : "@ + pair.0.name.upper_camel_case@ + "Accounts , pub data : "@
            + pair.0.name.upper_camel_case@ + "Data }"@).is_prefix_of(instruction_data_text(pair)),
{
    reveal(instruction_data_text);
    let u = pair.0.name.upper_camel_case@;
    let head = "# [derive (Arbitrary , Clone)] "@ + "pub struct "@ + u + " { pub accounts : "@ + u
        + "Accounts , pub data : "@ + u + "Data }"@;
    let rest = " "@ + accounts_struct_text(u, pair.1.accounts@) + " "@ + data_struct_text(
        u,
        pair.0.parameters@,
    );
    assert(instruction_data_text(pair) =~= head + rest);
    assert(head.is_prefix_of(head + rest));
}

/// The modules of the programs, in order.
pub open spec fn programs_text(ps: Seq<IdlProgram>) -> Seq<char> {
    concat(Seq::new(ps.len(), |i: int| program_module_text(ps[i])))
}

/// The whole generated source: the modules of all programs in order.
pub open spec fn source_code_text(idl: Idl) -> Seq<char> {
    programs_text(idl.programs@)
}

/// Each program's module is generated on its own: the source for the
/// programs `a` followed by `b` is the source for `a` followed by the
/// source for `b`.
pub proof fn lemma_programs_compose(a: Seq<IdlProgram>, b: Seq<IdlProgram>)
    ensures
        programs_text(a + b) == programs_text(a) + programs_text(b),
{
    let pa = Seq::new(a.len(), |i: int| program_module_text(a[i]));
    let pb = Seq::new(b.len(), |i: int| program_module_text(b[i]));
    let ab = a + b;
    assert(Seq::new(ab.len(), |i: int| program_module_text(ab[i])) =~= pa + pb);
    lemma_concat_append(pa, pb);
}

/// The names that the generated source declares for one instruction.
pub open spec fn instruction_accepted(pair: (IdlInstruction, IdlAccountGroup)) -> bool {
    let u = upper_name(pair);
    &&& rust_ident(u)
    &&& rust_ident(u + "Data"@)
    &&& rust_ident(u + "Accounts"@)
    &&& rust_ident(u + "Snapshot"@)
    &&& forall|j: int|
        0 <= j < pair.0.parameters@.len() ==> {
            &&& rust_ident((#[trigger] pair.0.parameters@[j]).0@)
            &&& type_tokens(pair.0.parameters@[j].1@) is Some
        }
    &&& forall|j: int|
        0 <= j < pair.1.accounts@.len() ==> rust_ident((#[trigger] pair.1.accounts@[j]).0@)
}

/// Every name of the program is an identifier and every parameter type
/// is a type, as the syntax crate reads them.
pub open spec fn program_accepted(p: IdlProgram) -> bool {
    let m = program_module_name(p);
    &&& rust_ident(m)
    &&& rust_ident(m + "_fuzz_instructions"@)
    &&& forall|i: int|
        0 <= i < p.instruction_account_pairs@.len() ==> instruction_accepted(
            #[trigger] p.instruction_account_pairs@[i],
        )
}

pub open spec fn idl_accepted(idl: Idl) -> bool {
    forall|i: int| 0 <= i < idl.programs@.len() ==> program_accepted(#[trigger] idl.programs@[i])
}

/// The items `prefix name suffix`, joined by ` , `.
fn named_list(items: &Vec<(String, String)>, prefix: &str, suffix: &str) -> (s: String)
    ensures
        s@ == join(named_items(items@, prefix@, suffix@), " , "@),
{
    let ghost parts = named_items(items@, prefix@, suffix@);
    let mut s = String::new();
    let mut i: usize = 0;
    while i < items.len()
        invariant
            i <= items.len(),
            parts == named_items(items@, prefix@, suffix@),
            s@ == join(parts.take(i as int), " , "@),
        decreases items.len() - i,
    {
        proof {
            lemma_join_take(parts, " , "@, i as int);
        }
        if i > 0 {
            s.append(" , ");
        }
        s.append(prefix);
        s.append(items[i].0.as_str());
        s.append(suffix);
        i = i + 1;
    }
    assert(parts.take(items.len() as int) =~= parts);
    s
}

/// The enum variants of all instructions, joined by ` , `.
fn variant_list(pairs: &Vec<(IdlInstruction, IdlAccountGroup)>) -> (s: String)
    ensures
        s@ == join(variant_items(pairs@), " , "@),
{
    let ghost parts = variant_items(pairs@);
    let mut s = String::new();
    let mut i: usize = 0;
    while i < pairs.len()
        invariant
            i <= pairs.len(),
            parts == variant_items(pairs@),
            s@ == join(parts.take(i as int), " , "@),
        decreases pairs.len() - i,
    {
        proof {
            lemma_join_take(parts, " , "@, i as int);
        }
        if i > 0 {
            s.append(" , ");
        }
        let u = pairs[i].0.name.upper_camel_case.as_str();
        s.append(u);
        s.append(" (");
        s.append(u);
        s.append(")");
        i = i + 1;
    }
    assert(parts.take(pairs.len() as int) =~= parts);
    s
}

/// The type a parameter gets in the generated data.
fn generated_param_type(ty: &str) -> (r: String)
    requires
        type_tokens(ty@) is Some,
    ensures
        r@ == param_type(ty@),
{
    match parse_type(ty) {
        Some(t) => {
            if is_pubkey_path(&t) {
                String::from_str("AccountId")
            } else {
                t.tokens
            }
        },
        None => String::new(),
    }
}

/// Whether the type is a path whose last segment is the identifier
/// `Pubkey`.
fn is_pubkey_path(t: &TypeModel) -> (b: bool)
    ensures
        b == (last_segment_ident(*t) == Some("Pubkey"@)),
{
    match &t.path {
        Some(p) => {
            if p.segments.len() > 0 {
                same_text(p.segments[p.segments.len() - 1].ident.as_str(), "Pubkey")
            } else {
                false
            }
        },
        None => false,
    }
}

/// Whether the text is read as a path type whose last segment is `Pubkey`.
fn is_pubkey_param(ty: &str) -> (b: bool)
    ensures
        b == is_pubkey_type(ty@),
{
    match parse_type(ty) {
        Some(t) => is_pubkey_path(&t),
        None => false,
    }
}

/// The parameter fields of the data struct, joined by ` , `.
fn param_list(params: &Vec<(String, String)>) -> (s: String)
    requires
        forall|j: int| 0 <= j < params@.len() ==> type_tokens((#[trigger] params@[j]).1@) is Some,
    ensures
        s@ == join(param_items(params@), " , "@),
{
    let ghost parts = param_items(params@);
    let mut s = String::new();
    let mut i: usize = 0;
    while i < params.len()
        invariant
            i <= params.len(),
            parts == param_items(params@),
            forall|j: int| 0 <= j < params@.len() ==> type_tokens((#[trigger] params@[j]).1@) is Some,
            s@ == join(parts.take(i as int), " , "@),
        decreases params.len() - i,
    {
        proof {
            lemma_join_take(parts, " , "@, i as int);
        }
        if i > 0 {
            s.append(" , ");
        }
        s.append("pub ");
        s.append(params[i].0.as_str());
        s.append(" : ");
        let t = generated_param_type(params[i].1.as_str());
        s.append(t.as_str());
        i = i + 1;
    }
    assert(parts.take(params.len() as int) =~= parts);
    s
}

/// The three data types of one instruction.
fn instruction_data(pair: &(IdlInstruction, IdlAccountGroup)) -> (s: String)
    requires
        forall|j: int|
            0 <= j < pair.0.parameters@.len() ==> type_tokens((#[trigger] pair.0.parameters@[j]).1@)
                is Some,
    ensures
        s@ == instruction_data_text(*pair),
{
    let u = pair.0.name.upper_camel_case.as_str();
    let mut s = String::new();
    s.append("# [derive (Arbitrary , Clone)] ");
    s.append("pub struct ");
    s.append(u);
    s.append(" { pub accounts : ");
    s.append(u);
    s.append("Accounts , pub data : ");
    s.append(u);
    s.append("Data }");
    s.append(" ");
    s.append("# [derive (Arbitrary , Clone)] ");
    s.append("pub struct ");
    s.append(u);
    s.append("Accounts ");
    let accs = named_list(&pair.1.accounts, "pub ", " : AccountId");
    append_brace(&mut s, &accs);
    s.append(" ");
    s.append("# [derive (Arbitrary , Clone)] ");
    s.append("pub struct ");
    s.append(u);
    s.append("Data ");
    let params = param_list(&pair.0.parameters);
    append_brace(&mut s, &params);
    proof {
        reveal(instruction_data_text);
    }
    s
}

/// The `IxOps` implementation of one instruction of program module `m`.
fn ixops_impl(m: &str, pair: &(IdlInstruction, IdlAccountGroup)) -> (s: String)
    ensures
        s@ == ixops_impl_text(m@, *pair),
{
    let u = pair.0.name.upper_camel_case.as_str();
    let mut s = String::new();
    s.append("impl < 'info > IxOps < 'info > for ");
    s.append(u);
    s.append(" { type IxData = ");
    s.append(m);
    s.append(" :: instruction :: ");
    s.append(u);
    s.append(" ; type IxAccounts = FuzzAccounts ; type IxSnapshot = ");
    s.append(u);
    s.append(
        "Snapshot < 'info > ; fn get_data (& self , _client : & mut impl FuzzClient , _fuzz_accounts : & mut FuzzAccounts ,) -> Result < Self :: IxData , FuzzingError > { let data = ",
    );
    s.append(m);
    s.append(" :: instruction :: ");
    s.append(u);
    s.append(" ");
    let params = named_list(&pair.0.parameters, "", " : todo ! ()");
    append_brace(&mut s, &params);
    s.append(
        " ; Ok (data) } fn get_accounts (& self , client : & mut impl FuzzClient , fuzz_accounts : & mut FuzzAccounts ,) -> Result < (Vec < Keypair > , Vec < AccountMeta >) , FuzzingError > { let signers = vec ! [todo ! ()] ; let acc_meta = ",
    );
    s.append(m);
    s.append(" :: accounts :: ");
    s.append(u);
    s.append(" ");
    let accs = named_list(&pair.1.accounts, "", " : todo ! ()");
    append_brace(&mut s, &accs);
    s.append(" . to_account_metas (None) ; Ok ((signers , acc_meta)) } }");
    proof {
        reveal(ixops_impl_text);
    }
    s
}

pub proof fn lemma_first_names_take(items: Seq<(String, String)>, j: int)
    requires
        0 <= j < items.len(),
    ensures
        first_names(items.take(j + 1)) == first_names(items.take(j)).insert(items[j].0@),
{
    let t = items.take(j + 1);
    assert(t.drop_last() =~= items.take(j));
}

pub proof fn lemma_pubkey_names_take(items: Seq<(String, String)>, j: int)
    requires
        0 <= j < items.len(),
    ensures
        pubkey_names(items.take(j + 1)) == if is_pubkey_type(items[j].1@) {
            pubkey_names(items.take(j)).insert(items[j].0@)
        } else {
            pubkey_names(items.take(j))
        },
{
    let t = items.take(j + 1);
    assert(t.drop_last() =~= items.take(j));
}

pub open spec fn names_view(v: Seq<String>) -> Seq<Seq<char>> {
    v.map_values(|s: String| s@)
}

/// The distinct account names of all instructions, in ascending order.
fn fuzz_account_names(pairs: &Vec<(IdlInstruction, IdlAccountGroup)>) -> (names: Vec<String>)
    ensures
        strictly_sorted(names_view(names@)),
        names_view(names@).to_set() == fuzz_account_set(pairs@),
{
    let mut names: Vec<String> = Vec::new();
    assert(names_view(names@).to_set() =~= Set::<Seq<char>>::empty());
    assert(pairs@.take(0) =~= Seq::<(IdlInstruction, IdlAccountGroup)>::empty());
    let mut i: usize = 0;
    while i < pairs.len()
        invariant
            i <= pairs.len(),
            strictly_sorted(names_view(names@)),
            names_view(names@).to_set() == fuzz_account_set(pairs@.take(i as int)),
        decreases pairs.len() - i,
    {
        let ghost before = fuzz_account_set(pairs@.take(i as int));
        let accounts = &pairs[i].1.accounts;
        let params = &pairs[i].0.parameters;
        let mut j: usize = 0;
        assert(accounts@.take(0) =~= Seq::<(String, String)>::empty());
        while j < accounts.len()
            invariant
                j <= accounts.len(),
                strictly_sorted(names_view(names@)),
                names_view(names@).to_set() == before.union(first_names(accounts@.take(j as int))),
            decreases accounts.len() - j,
        {
            proof {
                lemma_first_names_take(accounts@, j as int);
            }
            insert_sorted(&mut names, accounts[j].0.as_str());
            assert(names_view(names@).to_set() =~= before.union(
                first_names(accounts@.take(j + 1)),
            ));
            j = j + 1;
        }
        assert(accounts@.take(accounts.len() as int) =~= accounts@);
        let ghost middle = names_view(names@).to_set();
        let mut k: usize = 0;
        assert(params@.take(0) =~= Seq::<(String, String)>::empty());
        assert(middle.union(pubkey_names(params@.take(0))) =~= middle);
        while k < params.len()
            invariant
                k <= params.len(),
                strictly_sorted(names_view(names@)),
                names_view(names@).to_set() == middle.union(pubkey_names(params@.take(k as int))),
            decreases params.len() - k,
        {
            proof {
                lemma_pubkey_names_take(params@, k as int);
            }
            if is_pubkey_param(params[k].1.as_str()) {
                insert_sorted(&mut names, params[k].0.as_str());
            }
            assert(names_view(names@).to_set() =~= middle.union(
                pubkey_names(params@.take(k + 1)),
            ));
            k = k + 1;
        }
        assert(params@.take(params.len() as int) =~= params@);
        proof {
            let t = pairs@.take(i + 1);
            assert(t.drop_last() =~= pairs@.take(i as int));
            assert(t.last() == pairs@[i as int]);
        }
        i = i + 1;
    }
    assert(pairs@.take(pairs.len() as int) =~= pairs@);
    names
}

/// The storage of all accounts and its constructor.
fn fuzz_accounts(names: &Vec<String>) -> (s: String)
    ensures
        s@ == fuzz_accounts_text(names_view(names@)),
{
    let ghost nv = names_view(names@);
    let ghost parts = Seq::new(nv.len(), |i: int| nv[i] + " : AccountsStorage < todo ! () >"@);
    let mut fields = String::new();
    let mut i: usize = 0;
    while i < names.len()
        invariant
            i <= names.len(),
            nv == names_view(names@),
            parts == Seq::new(nv.len(), |i: int| nv[i] + " : AccountsStorage < todo ! () >"@),
            fields@ == join(parts.take(i as int), " , "@),
        decreases names.len() - i,
    {
        proof {
            lemma_join_take(parts, " , "@, i as int);
        }
        if i > 0 {
            fields.append(" , ");
        }
        fields.append(names[i].as_str());
        fields.append(" : AccountsStorage < todo ! () >");
        i = i + 1;
    }
    assert(parts.take(names.len() as int) =~= parts);
    let mut s = String::from_str(
        "# [doc = r\" Use AccountsStorage<T> where T can be one of:\"] # [doc = r\" Keypair, PdaStore, TokenStore, MintStore, ProgramStore\"] # [derive (Default)] pub struct FuzzAccounts ",
    );
    append_brace(&mut s, &fields);
    s.append(" impl FuzzAccounts { pub fn new () -> Self { Default :: default () } }");
    proof {
        reveal(fuzz_accounts_text);
    }
    s
}

/// The data types of all instructions, each preceded by a space.
fn data_section(pairs: &Vec<(IdlInstruction, IdlAccountGroup)>) -> (s: String)
    requires
        forall|i: int| 0 <= i < pairs@.len() ==> instruction_accepted(#[trigger] pairs@[i]),
    ensures
        s@ == concat(Seq::new(pairs@.len(), |i: int| " "@ + instruction_data_text(pairs@[i]))),
{
    let ghost parts = Seq::new(pairs@.len(), |i: int| " "@ + instruction_data_text(pairs@[i]));
    let mut s = String::new();
    let mut i: usize = 0;
    while i < pairs.len()
        invariant
            i <= pairs.len(),
            forall|i: int| 0 <= i < pairs@.len() ==> instruction_accepted(#[trigger] pairs@[i]),
            parts == Seq::new(pairs@.len(), |i: int| " "@ + instruction_data_text(pairs@[i])),
            s@ == concat(parts.take(i as int)),
        decreases pairs.len() - i,
    {
        proof {
            lemma_concat_take(parts, i as int);
            assert(instruction_accepted(pairs@[i as int]));
        }
        s.append(" ");
        let d = instruction_data(&pairs[i]);
        s.append(d.as_str());
        i = i + 1;
    }
    assert(parts.take(pairs.len() as int) =~= parts);
    s
}

/// The `IxOps` implementations of all instructions, each preceded by a
/// space.
fn impls_section(m: &str, pairs: &Vec<(IdlInstruction, IdlAccountGroup)>) -> (s: String)
    ensures
        s@ == concat(Seq::new(pairs@.len(), |i: int| " "@ + ixops_impl_text(m@, pairs@[i]))),
{
    let ghost parts = Seq::new(pairs@.len(), |i: int| " "@ + ixops_impl_text(m@, pairs@[i]));
    let mut s = String::new();
    let mut k: usize = 0;
    while k < pairs.len()
        invariant
            k <= pairs.len(),
            parts == Seq::new(pairs@.len(), |i: int| " "@ + ixops_impl_text(m@, pairs@[i])),
            s@ == concat(parts.take(k as int)),
        decreases pairs.len() - k,
    {
        proof {
            lemma_concat_take(parts, k as int);
        }
        s.append(" ");
        let t = ixops_impl(m, &pairs[k]);
        s.append(t.as_str());
        k = k + 1;
    }
    assert(parts.take(pairs.len() as int) =~= parts);
    s
}

/// The generated module of one program.
fn program_module(p: &IdlProgram) -> (s: String)
    requires
        program_accepted(*p),
    ensures
        s@ == program_module_text(*p),
{
    let pairs = &p.instruction_account_pairs;
    let m = replace_dashes(p.name.snake_case.as_str());
    let mut s = String::from_str("pub mod ");
    s.append(m.as_str());
    s.append(
        "_fuzz_instructions { use crate :: accounts_snapshots :: * ; # [derive (Arbitrary , Clone , DisplayIx , FuzzTestExecutor , FuzzDeserialize)] ",
    );
    s.append("pub enum FuzzInstruction ");
    let variants = variant_list(pairs);
    append_brace(&mut s, &variants);
    let data = data_section(pairs);
    s.append(data.as_str());
    let impls = impls_section(m.as_str(), pairs);
    s.append(impls.as_str());
    let names = fuzz_account_names(pairs);
    proof {
        lemma_sorted_list_is(names_view(names@), fuzz_account_set(pairs@));
    }
    s.append(" ");
    let f = fuzz_accounts(&names);
    s.append(f.as_str());
    s.append(" }");
    proof {
        reveal(program_module_text);
    }
    s
}

/// Generates `fuzz_instructions.rs` from the description of the
/// programs: one module per program, in the order of `idl.programs`.
pub fn generate_source_code(idl: &Idl) -> (code: String)
    requires
        idl_accepted(*idl),
    ensures
        code@ == source_code_text(*idl),
{
    let ghost parts = Seq::new(
        idl.programs@.len(),
        |i: int| program_module_text(idl.programs@[i]),
    );
    let mut code = String::new();
    let mut i: usize = 0;
    while i < idl.programs.len()
        invariant
            i <= idl.programs.len(),
            idl_accepted(*idl),
            parts == Seq::new(idl.programs@.len(), |i: int| program_module_text(idl.programs@[i])),
            code@ == concat(parts.take(i as int)),
        decreases idl.programs.len() - i,
    {
        proof {
            lemma_concat_take(parts, i as int);
            assert(program_accepted(idl.programs@[i as int]));
        }
        let m = program_module(&idl.programs[i]);
        code.append(m.as_str());
        i = i + 1;
    }
    assert(parts.take(idl.programs.len() as int) =~= parts);
    code
}

} // verus!

verus! {

/// Whether every `(name, _)` item names an identifier.
fn all_idents(items: &Vec<(String, String)>) -> (r: bool)
    ensures
        r == forall|j: int| 0 <= j < items@.len() ==> rust_ident((#[trigger] items@[j]).0@),
{
    let mut j: usize = 0;
    while j < items.len()
        invariant
            j <= items.len(),
            forall|k: int| 0 <= k < j ==> rust_ident((#[trigger] items@[k]).0@),
        decreases items.len() - j,
    {
        if !is_rust_ident(items[j].0.as_str()) {
            return false;
        }
        j = j + 1;
    }
    true
}

/// Whether every parameter names an identifier and its type is a type.
fn params_accepted(params: &Vec<(String, String)>) -> (r: bool)
    ensures
        r == forall|j: int|
            0 <= j < params@.len() ==> {
                &&& rust_ident((#[trigger] params@[j]).0@)
                &&& type_tokens(params@[j].1@) is Some
            },
{
    let mut j: usize = 0;
    while j < params.len()
        invariant
            j <= params.len(),
            forall|k: int|
                0 <= k < j ==> {
                    &&& rust_ident((#[trigger] params@[k]).0@)
                    &&& type_tokens(params@[k].1@) is Some
                },
        decreases params.len() - j,
    {
        if !is_rust_ident(params[j].0.as_str()) {
            return false;
        }
        if parse_type(params[j].1.as_str()).is_none() {
            return false;
        }
        j = j + 1;
    }
    true
}

/// Whether `base` followed by `suffix` is an identifier.
fn ident_with_suffix(base: &str, suffix: &str) -> (r: bool)
    ensures
        r == rust_ident(base@ + suffix@),
{
    let whole = String::from_str(base).concat(suffix);
    is_rust_ident(whole.as_str())
}

fn check_instruction(pair: &(IdlInstruction, IdlAccountGroup)) -> (r: bool)
    ensures
        r == instruction_accepted(*pair),
{
    let u = pair.0.name.upper_camel_case.as_str();
    is_rust_ident(u) && ident_with_suffix(u, "Data") && ident_with_suffix(u, "Accounts")
        && ident_with_suffix(u, "Snapshot") && params_accepted(&pair.0.parameters) && all_idents(
        &pair.1.accounts,
    )
}

fn check_program(p: &IdlProgram) -> (r: bool)
    ensures
        r == program_accepted(*p),
{
    let m = replace_dashes(p.name.snake_case.as_str());
    if !is_rust_ident(m.as_str()) || !ident_with_suffix(m.as_str(), "_fuzz_instructions") {
        return false;
    }
    let pairs = &p.instruction_account_pairs;
    let mut i: usize = 0;
    while i < pairs.len()
        invariant
            i <= pairs.len(),
            pairs@ == p.instruction_account_pairs@,
            forall|k: int| 0 <= k < i ==> instruction_accepted(#[trigger] pairs@[k]),
        decreases pairs.len() - i,
    {
        if !check_instruction(&pairs[i]) {
            assert(!instruction_accepted(p.instruction_account_pairs@[i as int]));
            return false;
        }
        i = i + 1;
    }
    true
}

/// Generates `fuzz_instructions.rs` when every name of the description is
/// an identifier and every parameter type is a type; `None` otherwise.
pub fn try_generate_source_code(idl: &Idl) -> (code: Option<String>)
    ensures
        code is Some <==> idl_accepted(*idl),
        code matches Some(c) ==> c@ == source_code_text(*idl),
{
    let mut i: usize = 0;
    while i < idl.programs.len()
        invariant
            i <= idl.programs.len(),
            forall|k: int| 0 <= k < i ==> program_accepted(#[trigger] idl.programs@[k]),
        decreases idl.programs.len() - i,
    {
        if !check_program(&idl.programs[i]) {
            assert(!program_accepted(idl.programs@[i as int]));
            return None;
        }
        i = i + 1;
    }
    Some(generate_source_code(idl))
}

} // verus!
