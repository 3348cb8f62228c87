//! The names photos downloaded together are stored under: a name already
//! used in the batch, or already on disk, gets the photo's position in the
//! batch in front of it.
use vstd::prelude::*;
use crate::assets::{is_listed, listed};
use crate::numbers::{all_digits, digits_value, is_digit, spec_parse_i64, spec_parse_u32, spec_parse_u8};
use crate::text::{chars_of, string_of};

verus! {

/// The character of decimal digit `d`.
pub open spec fn digit_char(d: nat) -> char {
    if d == 0 {
        '0'
    } else if d == 1 {
        '1'
    } else if d == 2 {
        '2'
    } else if d == 3 {
        '3'
    } else if d == 4 {
        '4'
    } else if d == 5 {
        '5'
    } else if d == 6 {
        '6'
    } else if d == 7 {
        '7'
    } else if d == 8 {
        '8'
    } else {
        '9'
    }
}

/// `n` written in decimal, without leading zeros.
pub open spec fn decimal(n: nat) -> Seq<char>
    decreases n,
{
    if n < 10 {
        seq![digit_char(n)]
    } else {
        decimal(n / 10).push(digit_char(n % 10))
    }
}

/// `name` marked with position `position` of its batch, counted from one.
pub open spec fn numbered(position: nat, name: Seq<char>) -> Seq<char> {
    decimal(position + 1) + seq!['-'] + name
}

/// The name the photo at `position` is stored under: `name`, unless
/// `taken` has it already or `exists` (it is on disk); then `name` numbered.
pub open spec fn spec_entry_name(taken: Seq<String>, position: nat, name: Seq<char>, exists: bool) -> Seq<char> {
    if listed(taken, name) || exists {
        numbered(position, name)
    } else {
        name
    }
}

/// The names of an archive's entries for photos suggested the names
/// `names`, in order: each one unless an earlier entry has it, then
/// numbered.
pub open spec fn archive_names(names: Seq<String>) -> Seq<Seq<char>>
    decreases names.len(),
{
    if names.len() == 0 {
        Seq::empty()
    } else {
        let r = archive_names(names.drop_last());
        let n = names.last()@;
        let taken = exists|k: int| 0 <= k < r.len() && r[k] == n;
        r.push(if taken { numbered((names.len() - 1) as nat, n) } else { n })
    }
}

fn digit(d: u64) -> (c: char)
    requires
        d < 10,
    ensures
        c == digit_char(d as nat),
{
    match d {
        0 => '0',
        1 => '1',
        2 => '2',
        3 => '3',
        4 => '4',
        5 => '5',
        6 => '6',
        7 => '7',
        8 => '8',
        _ => '9',
    }
}

/// `n` written in decimal.
pub fn decimal_chars(n: u64) -> (r: Vec<char>)
    ensures
        r@ == decimal(n as nat),
    decreases n,
{
    if n < 10 {
        let mut r: Vec<char> = Vec::new();
        r.push(digit(n));
        r
    } else {
        let mut r = decimal_chars(n / 10);
        r.push(digit(n % 10));
        r
    }
}

fn numbered_chars(position: usize, name: &[char]) -> (r: Vec<char>)
    requires
        position < u64::MAX,
    ensures
        r@ == numbered(position as nat, name@),
{
    let mut r = decimal_chars(position as u64 + 1);
    r.push('-');
    let mut i: usize = 0;
    let ghost start = r@;
    while i < name.len()
        invariant
            i <= name@.len(),
            r@ == start + name@.take(i as int),
        decreases name@.len() - i,
    {
        r.push(name[i]);
        i = i + 1;
        assert(r@ =~= start + name@.take(i as int));
    }
    assert(name@.take(name@.len() as int) =~= name@);
    r
}

/// The name the photo at `position` of its batch is stored under (see
/// `spec_entry_name`).
pub fn entry_name(taken: &Vec<String>, position: usize, name: &str, exists: bool) -> (r: String)
    requires
        position < u64::MAX,
    ensures
        r@ == spec_entry_name(taken@, position as nat, name@, exists),
{
    let owned = name.to_owned();
    if is_listed(taken, &owned) || exists {
        let c = chars_of(name);
        string_of(numbered_chars(position, c.as_slice()).as_slice())
    } else {
        owned
    }
}

/// The names of an archive's entries (see `archive_names`).
pub fn archive_entry_names(names: &Vec<String>) -> (r: Vec<String>)
    requires
        names@.len() < u64::MAX,
    ensures
        r@.len() == names@.len(),
        forall|k: int| 0 <= k < names@.len() ==> #[trigger] r@[k]@ == archive_names(names@)[k],
{
    let mut r: Vec<String> = Vec::new();
    let mut i: usize = 0;
    assert(names@.take(0) =~= Seq::<String>::empty());
    while i < names.len()
        invariant
            i <= names@.len(),
            names@.len() < u64::MAX,
            r@.len() == i,
            archive_names(names@.take(i as int)).len() == i,
            forall|k: int| 0 <= k < i ==> #[trigger] r@[k]@ == archive_names(names@.take(i as int))[k],
        decreases names@.len() - i,
    {
        let ghost t = names@.take(i + 1);
        assert(t.drop_last() =~= names@.take(i as int));
        let ghost prev = archive_names(names@.take(i as int));
        let name = entry_name(&r, i, names[i].as_str(), false);
        proof {
            assert(listed(r@, names@[i as int]@) == (exists|k: int| 0 <= k < prev.len() && prev[k] == t.last()@)) by {
                if listed(r@, names@[i as int]@) {
                    let k = choose|k: int| 0 <= k < r@.len() && r@[k]@ == names@[i as int]@;
                    assert(prev[k] == t.last()@);
                }
                if exists|k: int| 0 <= k < prev.len() && prev[k] == t.last()@ {
                    let k = choose|k: int| 0 <= k < prev.len() && prev[k] == t.last()@;
                    assert(r@[k]@ == names@[i as int]@);
                }
            }
        }
        r.push(name);
        i = i + 1;
        assert forall|k: int| 0 <= k < i implies #[trigger] r@[k]@ == archive_names(names@.take(i as int))[k] by {
            if k < i - 1 {
                assert(r@[k] == r@.drop_last()[k]);
            }
        }
    }
    assert(names@.take(names@.len() as int) =~= names@);
    r
}

proof fn lemma_digit_char(d: nat)
    requires
        d < 10,
    ensures
        is_digit(digit_char(d)),
        digit_char(d) as int - '0' as int == d,
{
}

/// `n` written in decimal is a run of digits worth `n`, with no leading
/// zero.
pub proof fn lemma_decimal_digits(n: nat)
    ensures
        decimal(n).len() > 0,
        all_digits(decimal(n)),
        digits_value(decimal(n)) == n,
        n > 0 ==> decimal(n)[0] != '0',
    decreases n,
{
    if n < 10 {
        lemma_digit_char(n);
        let e = decimal(n);
        assert(e == seq![digit_char(n)]);
        assert(e.drop_last() =~= Seq::<char>::empty());
        assert(digits_value(e.drop_last()) == 0);
        assert(e.last() == digit_char(n));
        assert(digits_value(e) == 10 * digits_value(e.drop_last()) + (e.last() as int - '0' as int));
    } else {
        lemma_decimal_digits(n / 10);
        lemma_digit_char(n % 10);
        let d = decimal(n / 10);
        let e = decimal(n);
        assert(e.drop_last() =~= d);
        assert(e.last() == digit_char(n % 10));
        assert(n == 10 * (n / 10) + n % 10);
        assert(digits_value(e) == 10 * digits_value(d) + (e.last() as int - '0' as int));
        assert forall|i: int| 0 <= i < e.len() implies #[trigger] is_digit(e[i]) by {
            if i < d.len() {
                assert(e[i] == d[i]);
            }
        }
        assert(e[0] == d[0]);
    }
}

/// Reading back a number written in decimal gives the number.
pub proof fn lemma_decimal_reads_back(n: nat)
    ensures
        n <= u32::MAX ==> spec_parse_u32(decimal(n)) == Some(n as u32),
        n <= i64::MAX ==> spec_parse_i64(decimal(n)) == Some(n as i64),
        n <= u8::MAX ==> spec_parse_u8(decimal(n)) == Some(n as u8),
{
    lemma_decimal_digits(n);
    assert(decimal(n)[0] != '+' && decimal(n)[0] != '-') by {
        assert(is_digit(decimal(n)[0]));
    }
}

/// A photo whose name is free in its batch and not on disk keeps it;
/// otherwise its name is its position in the batch, counted from one, a
/// hyphen and then the name it was given.
pub proof fn lemma_entry_name(taken: Seq<String>, position: nat, name: Seq<char>, exists: bool)
    ensures
        !listed(taken, name) && !exists ==> spec_entry_name(taken, position, name, exists) == name,
        listed(taken, name) || exists ==> {
            let r = spec_entry_name(taken, position, name, exists);
            let k = r.len() - name.len() - 1;
            &&& k > 0
            &&& r.subrange(k + 1, r.len() as int) == name
            &&& r[k] == '-'
            &&& (position + 1 <= u32::MAX ==> spec_parse_u32(r.take(k)) == Some((position + 1) as u32))
        },
{
    lemma_decimal_reads_back(position + 1);
    lemma_decimal_digits(position + 1);
    if listed(taken, name) || exists {
        let r = spec_entry_name(taken, position, name, exists);
        let d = decimal(position + 1);
        let k = r.len() - name.len() - 1;
        assert(k == d.len());
        assert(r.subrange(k + 1, r.len() as int) =~= name);
        assert(r.take(k) =~= d);
        assert(r[k] == '-');
    }
}

} // verus!
