//! The name resolver: a field name for every entry, and a name for the slot
//! that holds the open extension.

use crate::schema::{declared_distinct, declared_names, texts, ContainerSchema, FieldSpec};
use vstd::prelude::*;
use vstd::string::StringExecFns;

verus! {

/// The character of a decimal digit.
pub open spec fn digit(d: nat) -> char {
    if d == 0 {
        '0'
    } else if d == 1 {
        '1'
    } else if d == 2 {
        '2'
    } else if d == 3 {
        '3'
    } else if d == 4 {
        '4'
    } else if d == 5 {
        '5'
    } else if d == 6 {
        '6'
    } else if d == 7 {
        '7'
    } else if d == 8 {
        '8'
    } else {
        '9'
    }
}

/// A number in decimal, without leading zeros.
pub open spec fn decimal(n: nat) -> Seq<char>
    decreases n,
{
    if n < 10 {
        seq![digit(n)]
    } else {
        decimal(n / 10).push(digit(n % 10))
    }
}

/// The text of one decimal digit.
fn digit_text(d: u128) -> (r: &'static str)
    requires
        d < 10,
    ensures
        r@ == seq![digit(d as nat)],
{
    proof {
        reveal_strlit("0");
        reveal_strlit("1");
        reveal_strlit("2");
        reveal_strlit("3");
        reveal_strlit("4");
        reveal_strlit("5");
        reveal_strlit("6");
        reveal_strlit("7");
        reveal_strlit("8");
        reveal_strlit("9");
    }
    let r = if d == 0 {
        "0"
    } else if d == 1 {
        "1"
    } else if d == 2 {
        "2"
    } else if d == 3 {
        "3"
    } else if d == 4 {
        "4"
    } else if d == 5 {
        "5"
    } else if d == 6 {
        "6"
    } else if d == 7 {
        "7"
    } else if d == 8 {
        "8"
    } else {
        "9"
    };
    assert(r@ =~= seq![digit(d as nat)]);
    r
}

/// Writes a number in decimal.
pub fn decimal_text(n: u128) -> (text: String)
    ensures
        text@ == decimal(n as nat),
    decreases n,
{
    if n < 10 {
        String::from_str(digit_text(n))
    } else {
        let mut text = decimal_text(n / 10);
        text.append(digit_text(n % 10));
        assert(text@ =~= decimal((n / 10) as nat).push(digit((n % 10) as nat)));
        text
    }
}

/// Two numbers with the same decimal text are the same number.
pub proof fn lemma_decimal_injective(a: nat, b: nat)
    requires
        decimal(a) == decimal(b),
    ensures
        a == b,
    decreases a,
{
    if a < 10 && b < 10 {
        assert(decimal(a)[0] == digit(a));
        assert(decimal(b)[0] == digit(b));
    } else if a >= 10 && b >= 10 {
        let da = decimal(a / 10);
        let db = decimal(b / 10);
        assert(decimal(a).drop_last() =~= da);
        assert(decimal(b).drop_last() =~= db);
        assert(decimal(a).last() == digit(a % 10));
        assert(decimal(b).last() == digit(b % 10));
        lemma_decimal_injective(a / 10, b / 10);
        assert(a % 10 == b % 10);
    } else {
        lemma_decimal_len(a);
        lemma_decimal_len(b);
    }
}

/// One digit below ten, more from ten on.
proof fn lemma_decimal_len(n: nat)
    ensures
        n < 10 ==> decimal(n).len() == 1,
        n >= 10 ==> decimal(n).len() >= 2,
    decreases n,
{
    if n >= 10 {
        lemma_decimal_len(n / 10);
    }
}

/// The `n`-th name of the family that starts with `prefix`.
pub open spec fn numbered(prefix: Seq<char>, n: nat) -> Seq<char> {
    prefix + decimal(n)
}

/// Writes the `n`-th name of the family that starts with `prefix`.
pub fn numbered_text(prefix: &str, n: u128) -> (text: String)
    ensures
        text@ == numbered(prefix@, n as nat),
{
    let mut text = String::from_str(prefix);
    let number = decimal_text(n);
    text.append(number.as_str());
    text
}

/// Within one family, different numbers give different names.
pub proof fn lemma_numbered_injective(prefix: Seq<char>, a: nat, b: nat)
    requires
        numbered(prefix, a) == numbered(prefix, b),
    ensures
        a == b,
{
    let len = prefix.len() as int;
    assert(numbered(prefix, a).subrange(len, numbered(prefix, a).len() as int) =~= decimal(a));
    assert(numbered(prefix, b).subrange(len, numbered(prefix, b).len() as int) =~= decimal(b));
    lemma_decimal_injective(a, b);
}

/// Whether `n` is the least number from `from` on whose name in the family is
/// not among `taken`.
pub open spec fn is_first_unused(taken: Set<Seq<char>>, prefix: Seq<char>, from: nat, n: nat) -> bool {
    &&& from <= n
    &&& !taken.contains(numbered(prefix, n))
    &&& forall|m: nat| from <= m < n ==> taken.contains(#[trigger] numbered(prefix, m))
}

/// The least number from `from` on whose name in the family is not among
/// `taken`.
pub open spec fn first_unused(taken: Set<Seq<char>>, prefix: Seq<char>, from: nat) -> nat {
    choose|n: nat| is_first_unused(taken, prefix, from, n)
}

/// There is one least unused number at most.
pub proof fn lemma_first_unused_unique(taken: Set<Seq<char>>, prefix: Seq<char>, from: nat, n: nat)
    requires
        is_first_unused(taken, prefix, from, n),
    ensures
        first_unused(taken, prefix, from) == n,
{
    let c = first_unused(taken, prefix, from);
    assert(is_first_unused(taken, prefix, from, c));
    if c < n {
        assert(taken.contains(numbered(prefix, c)));
    } else if n < c {
        assert(taken.contains(numbered(prefix, n)));
    }
}

/// Among the names of one family, numbered from `from` on, there is one that
/// is not taken, and it comes before as many have gone by as names are taken.
proof fn lemma_some_unused(taken: Set<Seq<char>>, prefix: Seq<char>, from: nat) -> (u: nat)
    requires
        taken.finite(),
    ensures
        from <= u <= from + taken.len(),
        !taken.contains(numbered(prefix, u)),
{
    let k = taken.len();
    let candidates = Seq::new(k + 1, |i: int| numbered(prefix, (from + i) as nat));
    if forall|i: int| 0 <= i <= k ==> taken.contains(#[trigger] candidates[i]) {
        assert forall|i: int, j: int|
            0 <= i < candidates.len() && 0 <= j < candidates.len() && i != j implies candidates[i]
            != candidates[j] by {
            if candidates[i] == candidates[j] {
                lemma_numbered_injective(prefix, (from + i) as nat, (from + j) as nat);
            }
        }
        candidates.unique_seq_to_set();
        assert(candidates.to_set().subset_of(taken)) by {
            assert forall|name: Seq<char>| candidates.to_set().contains(name) implies taken.contains(
                name,
            ) by {
                let i = choose|i: int| 0 <= i < candidates.len() && candidates[i] == name;
                assert(taken.contains(candidates[i]));
            }
        }
        vstd::set_lib::lemma_len_subset(candidates.to_set(), taken);
        assert(false);
        from
    } else {
        let i = choose|i: int| 0 <= i <= k && !taken.contains(#[trigger] candidates[i]);
        (from + i) as nat
    }
}

/// Before an unused number there is a least one.
proof fn lemma_least_unused(taken: Set<Seq<char>>, prefix: Seq<char>, from: nat, u: nat)
    requires
        from <= u,
        !taken.contains(numbered(prefix, u)),
    ensures
        exists|n: nat| n <= u && is_first_unused(taken, prefix, from, n),
    decreases u - from,
{
    if forall|m: nat| from <= m < u ==> taken.contains(#[trigger] numbered(prefix, m)) {
        assert(is_first_unused(taken, prefix, from, u));
    } else {
        let m = choose|m: nat| from <= m < u && !taken.contains(#[trigger] numbered(prefix, m));
        lemma_least_unused(taken, prefix, from, m);
    }
}

/// Where finitely many names are taken, there is a least number whose name is
/// unused: a name can always be found, and no more names are passed over on
/// the way than are taken.
pub proof fn lemma_first_unused_exists(taken: Set<Seq<char>>, prefix: Seq<char>, from: nat)
    requires
        taken.finite(),
    ensures
        is_first_unused(taken, prefix, from, first_unused(taken, prefix, from)),
        first_unused(taken, prefix, from) <= from + taken.len(),
{
    let u = lemma_some_unused(taken, prefix, from);
    lemma_least_unused(taken, prefix, from, u);
    let n = choose|n: nat| n <= u && is_first_unused(taken, prefix, from, n);
    lemma_first_unused_unique(taken, prefix, from, n);
}

/// The first position of `name` among `used`, if it is there.
pub fn position_of(used: &Vec<String>, name: &String) -> (r: Option<usize>)
    ensures
        match r {
            Some(p) => p < used.len() && used[p as int]@ == name@ && forall|j: int|
                0 <= j < p ==> used[j]@ != name@,
            None => !texts(used@).contains(name@),
        },
{
    let mut p: usize = 0;
    while p < used.len()
        invariant
            p <= used.len(),
            forall|j: int| 0 <= j < p ==> used[j]@ != name@,
        decreases used.len() - p,
    {
        if used[p] == *name {
            return Some(p);
        }
        p = p + 1;
    }
    None
}

/// Finds the least number from `from` on whose name in the family is not
/// among `used`.
pub fn find_unused(used: &Vec<String>, prefix: &str, from: u128) -> (n: u128)
    requires
        from + used.len() <= u128::MAX,
    ensures
        is_first_unused(texts(used@).to_set(), prefix@, from as nat, n as nat),
        n == first_unused(texts(used@).to_set(), prefix@, from as nat),
        n <= from + used.len(),
{
    let ghost taken = texts(used@).to_set();
    let ghost target = first_unused(taken, prefix@, from as nat);
    proof {
        vstd::seq_lib::seq_to_set_is_finite(texts(used@));
        texts(used@).lemma_cardinality_of_set();
        lemma_first_unused_exists(taken, prefix@, from as nat);
    }
    let mut n: u128 = from;
    loop
        invariant
            taken == texts(used@).to_set(),
            target == first_unused(taken, prefix@, from as nat),
            is_first_unused(taken, prefix@, from as nat, target),
            from <= n <= target <= from + used.len() <= u128::MAX,
        ensures
            n == target,
        decreases target - n,
    {
        let candidate = numbered_text(prefix, n);
        match position_of(used, &candidate) {
            Some(p) => {
                assert(texts(used@)[p as int] == candidate@);
                n = n + 1;
            },
            None => {
                break ;
            },
        }
    }
    n
}

/// The names that fields declare.
pub open spec fn declared_set(declared: Seq<Option<Seq<char>>>) -> Set<Seq<char>> {
    Set::new(|name: Seq<char>| declared.contains(Some(name)))
}

/// The names of the fields from position `i` on, where automatic names are
/// numbered from `from` on: a declared name stays, and a field without one
/// gets the next automatic name that no field declares.
pub open spec fn names_from(declared: Seq<Option<Seq<char>>>, i: nat, from: nat) -> Seq<Seq<char>>
    decreases declared.len() - i,
{
    if i >= declared.len() {
        Seq::empty()
    } else {
        match declared[i as int] {
            Some(name) => seq![name] + names_from(declared, i + 1, from),
            None => {
                let n = first_unused(declared_set(declared), "slot_"@, from);
                seq![numbered("slot_"@, n)] + names_from(declared, i + 1, n + 1)
            },
        }
    }
}

/// The name of every field, in declaration order. Fields without a declared
/// name are named `slot_0`, `slot_1` and so on, in declaration order, leaving
/// out every name that a field declares.
pub open spec fn field_names(declared: Seq<Option<Seq<char>>>) -> Seq<Seq<char>> {
    names_from(declared, 0, 0)
}

/// The names that the fields declare, collected in declaration order.
fn collect_declared<I>(fields: &Vec<FieldSpec<I>>) -> (used: Vec<String>)
    ensures
        texts(used@).to_set() == declared_set(declared_names(fields@)),
        used.len() <= fields.len(),
{
    let ghost declared = declared_names(fields@);
    let mut used: Vec<String> = Vec::new();
    let mut j: usize = 0;
    while j < fields.len()
        invariant
            j <= fields.len(),
            used.len() <= j,
            declared == declared_names(fields@),
            forall|k: int| 0 <= k < used.len() ==> declared.contains(Some(#[trigger] used[k]@)),
            forall|p: int|
                0 <= p < j && (#[trigger] declared[p]) is Some ==> texts(used@).contains(declared[p]->0),
        decreases fields.len() - j,
    {
        match &fields[j].declared_name {
            Some(name) => {
                let ghost before = used@;
                used.push(name.clone());
                proof {
                    assert(declared[j as int] == Some(name@));
                    assert forall|p: int| 0 <= p <= j && (#[trigger] declared[p]) is Some implies texts(
                        used@,
                    ).contains(declared[p]->0) by {
                        if p < j {
                            let k = choose|k: int|
                                0 <= k < texts(before).len() && texts(before)[k] == declared[p]->0;
                            assert(texts(used@)[k] == declared[p]->0);
                        } else {
                            assert(texts(used@)[used.len() - 1] == name@);
                        }
                    }
                }
            },
            None => {},
        }
        j = j + 1;
    }
    proof {
        let lhs = texts(used@).to_set();
        let rhs = declared_set(declared);
        assert forall|name: Seq<char>| lhs.contains(name) <==> rhs.contains(name) by {
            if lhs.contains(name) {
                let k = choose|k: int| 0 <= k < texts(used@).len() && texts(used@)[k] == name;
                assert(declared.contains(Some(used[k]@)));
            }
            if rhs.contains(name) {
                let p = choose|p: int| 0 <= p < declared.len() && declared[p] == Some(name);
                assert(declared[p] is Some);
            }
        }
        assert(lhs =~= rhs);
    }
    used
}

/// Gives every field its name. A declared name is kept, an automatic name is
/// none that a field declares, and where no two fields declare the same name
/// no two fields get the same name.
pub fn resolve_fields<I>(fields: &Vec<FieldSpec<I>>) -> (names: Vec<String>)
    ensures
        texts(names@) == field_names(declared_names(fields@)),
        names.len() == fields.len(),
        forall|k: int|
            0 <= k < fields.len() ==> match (#[trigger] declared_names(fields@)[k]) {
                Some(name) => names[k]@ == name,
                None => !declared_set(declared_names(fields@)).contains(names[k]@),
            },
        declared_distinct(declared_names(fields@)) ==> texts(names@).no_duplicates(),
{
    let ghost declared = declared_names(fields@);
    let used = collect_declared(fields);
    let mut names: Vec<String> = Vec::new();
    let mut next: u128 = 0;
    let mut i: usize = 0;
    let ghost mut numbers: Seq<nat> = Seq::empty();
    while i < fields.len()
        invariant
            i <= fields.len(),
            names.len() == i,
            numbers.len() == i,
            used.len() <= fields.len(),
            declared == declared_names(fields@),
            texts(used@).to_set() == declared_set(declared),
            next <= i * (used.len() + 1),
            texts(names@) + names_from(declared, i as nat, next as nat) == field_names(declared),
            forall|k: int|
                0 <= k < i ==> match (#[trigger] declared[k]) {
                    Some(name) => names[k]@ == name,
                    None => !declared_set(declared).contains(names[k]@) && numbers[k] < next
                        && names[k]@ == numbered("slot_"@, numbers[k]),
                },
            declared_distinct(declared) ==> texts(names@).no_duplicates(),
        decreases fields.len() - i,
    {
        let ghost before = names@;
        let ghost from = next;
        proof {
            lemma_index_room(i as nat, fields.len() as nat, used.len() as nat);
        }
        match &fields[i].declared_name {
            Some(name) => {
                names.push(name.clone());
                proof {
                    numbers = numbers.push(0);
                    assert(declared[i as int] == Some(name@));
                    assert(texts(names@) =~= texts(before) + seq![name@]);
                    assert(texts(names@) + names_from(declared, (i + 1) as nat, next as nat) =~= texts(
                        before,
                    ) + names_from(declared, i as nat, next as nat));
                    if declared_distinct(declared) {
                        assert forall|k: int| 0 <= k < i implies texts(before)[k] != name@ by {
                            match declared[k] {
                                Some(other) => {},
                                None => {
                                    assert(declared.contains(Some(name@)));
                                },
                            }
                        }
                    }
                }
            },
            None => {
                let n = find_unused(&used, "slot_", next);
                let name = numbered_text("slot_", n);
                names.push(name);
                next = n + 1;
                proof {
                    numbers = numbers.push(n as nat);
                    assert(declared[i as int] is None);
                    assert(texts(names@) =~= texts(before) + seq![numbered("slot_"@, n as nat)]);
                    assert(texts(names@) + names_from(declared, (i + 1) as nat, next as nat) =~= texts(
                        before,
                    ) + names_from(declared, i as nat, from as nat));
                    assert forall|k: int| 0 <= k < i implies texts(before)[k] != numbered(
                        "slot_"@,
                        n as nat,
                    ) by {
                        match declared[k] {
                            Some(other) => {
                                assert(declared.contains(Some(other)));
                            },
                            None => {
                                if texts(before)[k] == numbered("slot_"@, n as nat) {
                                    lemma_numbered_injective("slot_"@, numbers[k], n as nat);
                                }
                            },
                        }
                    }
                }
            },
        }
        i = i + 1;
    }
    proof {
        assert(texts(names@) + Seq::<Seq<char>>::empty() =~= texts(names@));
    }
    names
}

/// The name of the slot that holds the open extension, given the names of
/// the fields: `dynamic_keys` unless a field has that name, and else the first
/// of `dynamic_keys_0`, `dynamic_keys_1` and so on that no field has.
pub open spec fn open_slot_name(names: Seq<Seq<char>>) -> Seq<char> {
    if !names.contains("dynamic_keys"@) {
        "dynamic_keys"@
    } else {
        numbered("dynamic_keys_"@, first_unused(names.to_set(), "dynamic_keys_"@, 0))
    }
}

/// Names the slot that holds the open extension: `dynamic_keys` unless a field
/// has that name, and else the first of `dynamic_keys_0`, `dynamic_keys_1` and
/// so on that no field has.
pub fn resolve_open_slot(names: &Vec<String>) -> (name: String)
    ensures
        name@ == open_slot_name(texts(names@)),
        !texts(names@).contains(name@),
{
    let canonical = String::from_str("dynamic_keys");
    match position_of(names, &canonical) {
        None => canonical,
        Some(p) => {
            assert(texts(names@)[p as int] == "dynamic_keys"@);
            let n = find_unused(names, "dynamic_keys_", 0);
            numbered_text("dynamic_keys_", n)
        },
    }
}

/// Room for the automatic numbers: each field moves the next number on by one
/// more than the count of declared names at most.
proof fn lemma_index_room(i: nat, len: nat, used: nat)
    requires
        i < len <= usize::MAX,
        used <= len,
    ensures
        i * (used + 1) + used + 1 <= (i + 1) * (used + 1) <= u128::MAX,
{
    assert(i * (used + 1) + used + 1 == (i + 1) * (used + 1)) by (nonlinear_arith);
    assert((i + 1) * (used + 1) <= 0xffff_ffff_ffff_ffff * 0x1_0000_0000_0000_0000) by (nonlinear_arith)
        requires
            i + 1 <= 0xffff_ffff_ffff_ffff,
            used + 1 <= 0x1_0000_0000_0000_0000,
    ;
}

/// The resolved names: one for every field, in declaration order, and one for
/// the slot that holds the open extension.
pub struct ResolvedNames {
    /// The name of every field, in declaration order.
    pub fields: Vec<String>,
    /// The name of the slot that holds the open extension.
    pub open_slot: String,
}

/// Resolves the names of a schema. The same schema always gets the same names.
/// A declared name is kept, an automatic name is none that a field declares,
/// and the open extension's slot is named like no field. Where no two fields
/// declare the same name, no two fields get the same name.
pub fn ensure_names<I>(schema: &ContainerSchema<I>) -> (names: ResolvedNames)
    ensures
        names.fields.len() == schema.fields.len(),
        texts(names.fields@) == field_names(declared_names(schema.fields@)),
        names.open_slot@ == open_slot_name(texts(names.fields@)),
        forall|k: int|
            0 <= k < schema.fields.len() ==> match (#[trigger] declared_names(schema.fields@)[k]) {
                Some(name) => names.fields[k]@ == name,
                None => !declared_set(declared_names(schema.fields@)).contains(names.fields[k]@),
            },
        declared_distinct(declared_names(schema.fields@)) ==> texts(names.fields@).no_duplicates(),
        !texts(names.fields@).contains(names.open_slot@),
{
    let fields = resolve_fields(&schema.fields);
    let open_slot = resolve_open_slot(&fields);
    ResolvedNames { fields, open_slot }
}

} // verus!
