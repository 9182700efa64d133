//! Text helpers: decimal rendering of indices, lookups by name, the order
//! of strings, and the text conversions of std and `convert_case`.
use vstd::prelude::*;
use convert_case::{Case, Casing};

verus! {

/// The character of a decimal digit.
pub open spec fn digit_char(d: nat) -> char {
    ('0' as int + d) as char
}

/// The decimal representation of a natural number, most significant digit
/// first, without leading zeros.
pub open spec fn decimal(n: nat) -> Seq<char>
    decreases n,
{
    if n < 10 {
        seq![digit_char(n)]
    } else {
        decimal(n / 10) + seq![digit_char(n % 10)]
    }
}

/// The number a string of decimal digits stands for.
pub open spec fn decimal_value(s: Seq<char>) -> int
    decreases s.len(),
{
    if s.len() == 0 {
        0
    } else {
        10 * decimal_value(s.drop_last()) + (s.last() as int - '0' as int)
    }
}

/// The decimal text of `n` is made of digits, starts with no zero unless
/// it is `0`, and reads back as `n`.
pub proof fn law_decimal(n: nat)
    ensures
        decimal(n).len() >= 1,
        forall|i: int|
            0 <= i < decimal(n).len() ==> '0' as int <= #[trigger] decimal(n)[i] as int <= '9' as int,
        decimal(n)[0] == '0' ==> n == 0,
        decimal_value(decimal(n)) == n,
    decreases n,
{
    if n >= 10 {
        law_decimal(n / 10);
        let s = decimal(n);
        assert(s.drop_last() =~= decimal(n / 10));
        assert(s.last() == digit_char(n % 10));
        assert(n == 10 * (n / 10) + n % 10);
        assert forall|i: int| 0 <= i < s.len() implies '0' as int <= #[trigger] s[i] as int <= '9'
            as int by {
            if i < s.len() - 1 {
                assert(s[i] == decimal(n / 10)[i]);
            }
        }
        assert(s[0] == decimal(n / 10)[0]);
        assert(s.last() as int - '0' as int == n % 10);
        assert(decimal_value(s) == 10 * decimal_value(s.drop_last()) + (s.last() as int - '0' as int));
    } else {
        let s = decimal(n);
        assert(s[0] as int - '0' as int == n);
        assert(s.drop_last() =~= Seq::<char>::empty());
        assert(decimal_value(s) == 10 * decimal_value(s.drop_last()) + (s.last() as int - '0' as int));
    }
}

fn digit_str(d: usize) -> (r: &'static str)
    requires
        d < 10,
    ensures
        r@ == seq![digit_char(d as nat)],
{
    proof {
        reveal_strlit("0");
        reveal_strlit("1");
        reveal_strlit("2");
        reveal_strlit("3");
        reveal_strlit("4");
        reveal_strlit("5");
        reveal_strlit("6");
        reveal_strlit("7");
        reveal_strlit("8");
        reveal_strlit("9");
    }
    match d {
        0 => "0",
        1 => "1",
        2 => "2",
        3 => "3",
        4 => "4",
        5 => "5",
        6 => "6",
        7 => "7",
        8 => "8",
        _ => "9",
    }
}

/// `prefix` followed by `text`.
pub fn concat_str(prefix: &str, text: &str) -> (r: String)
    ensures
        r@ == prefix@ + text@,
{
    let mut s = String::from_str(prefix);
    s.append(text);
    s
}

/// Renders `n` in decimal, as `n.to_string()` does.
pub fn decimal_string(n: usize) -> (r: String)
    ensures
        r@ == decimal(n as nat),
    decreases n,
{
    if n < 10 {
        String::from_str(digit_str(n))
    } else {
        let mut s = decimal_string(n / 10);
        s.append(digit_str(n % 10));
        s
    }
}

} // verus!

verus! {

/// `i` is the first position in `keys` that holds `key`.
pub open spec fn is_first_index(keys: Seq<Seq<char>>, key: Seq<char>, i: int) -> bool {
    &&& 0 <= i < keys.len()
    &&& keys[i] == key
    &&& forall|j: int| 0 <= j < i ==> keys[j] != key
}

/// The first position in `keys` that holds `key`, or -1 where none does.
pub open spec fn first_index(keys: Seq<Seq<char>>, key: Seq<char>) -> int {
    if exists|i: int| is_first_index(keys, key, i) {
        choose|i: int| is_first_index(keys, key, i)
    } else {
        -1
    }
}

/// The keys of a list of named entries.
pub open spec fn keys_of<V>(entries: Seq<(String, V)>) -> Seq<Seq<char>> {
    entries.map_values(|e: (String, V)| e.0@)
}

/// `first_index` is -1 exactly when the key is absent, and otherwise a
/// position that holds the key, with no earlier one.
pub proof fn lemma_first_index(keys: Seq<Seq<char>>, key: Seq<char>)
    ensures
        first_index(keys, key) == -1 <==> !keys.contains(key),
        first_index(keys, key) != -1 ==> is_first_index(keys, key, first_index(keys, key)),
{
    if keys.contains(key) {
        let k = choose|k: int| 0 <= k < keys.len() && keys[k] == key;
        lemma_first_exists(keys, key, k);
    }
}

proof fn lemma_first_exists(keys: Seq<Seq<char>>, key: Seq<char>, k: int)
    requires
        0 <= k < keys.len(),
        keys[k] == key,
    ensures
        exists|i: int| is_first_index(keys, key, i),
    decreases k,
{
    if forall|j: int| 0 <= j < k ==> keys[j] != key {
        assert(is_first_index(keys, key, k));
    } else {
        let j = choose|j: int| 0 <= j < k && keys[j] == key;
        lemma_first_exists(keys, key, j);
    }
}

/// A position that holds `key` with no earlier one is the first index.
pub proof fn lemma_first_index_unique(keys: Seq<Seq<char>>, key: Seq<char>, i: int)
    requires
        is_first_index(keys, key, i),
    ensures
        first_index(keys, key) == i,
{
    let c = choose|c: int| is_first_index(keys, key, c);
    assert(is_first_index(keys, key, c));
    if c < i {
        assert(keys[c] != key);
    }
    if i < c {
        assert(keys[i] != key);
    }
}

/// The position of the first entry named `key`.
pub fn find_key<V>(entries: &Vec<(String, V)>, key: &String) -> (r: Option<usize>)
    ensures
        match r {
            Some(i) => i as int == first_index(keys_of(entries@), key@) && i < entries@.len(),
            None => first_index(keys_of(entries@), key@) == -1,
        },
{
    let ghost keys = keys_of(entries@);
    let mut i: usize = 0;
    while i < entries.len()
        invariant
            i <= entries@.len(),
            keys == keys_of(entries@),
            forall|j: int| 0 <= j < i ==> keys[j] != key@,
        decreases entries@.len() - i,
    {
        if entries[i].0 == *key {
            proof {
                assert(keys[i as int] == key@);
                lemma_first_index_unique(keys, key@, i as int);
            }
            return Some(i);
        }
        i = i + 1;
    }
    proof {
        lemma_first_index(keys, key@);
        if keys.contains(key@) {
            let k = choose|k: int| 0 <= k < keys.len() && keys[k] == key@;
            assert(keys[k] != key@);
        }
    }
    None
}

} // verus!

verus! {

/// `a` comes before `b` at position `i`: they agree before `i`, and there
/// `a` ends while `b` goes on, or `a` has the smaller character.
pub open spec fn lt_at(a: Seq<char>, b: Seq<char>, i: int) -> bool {
    &&& 0 <= i <= a.len()
    &&& i < b.len()
    &&& forall|j: int| 0 <= j < i ==> a[j] == b[j]
    &&& (i == a.len() || (a[i] as int) < (b[i] as int))
}

/// The lexicographic order of strings by code point, the order of `str`.
pub open spec fn str_lt(a: Seq<char>, b: Seq<char>) -> bool {
    exists|i: int| lt_at(a, b, i)
}

/// No string comes before itself, and two strings are never each before
/// the other.
pub proof fn lemma_str_lt_asymmetric(a: Seq<char>, b: Seq<char>)
    ensures
        !(str_lt(a, b) && str_lt(b, a)),
{
    if str_lt(a, b) && str_lt(b, a) {
        let i = choose|i: int| lt_at(a, b, i);
        let k = choose|k: int| lt_at(b, a, k);
        if i < k {
            assert(b[i] == a[i]);
        } else if k < i {
            assert(a[k] == b[k]);
        }
    }
}

/// Of two different strings, one comes before the other.
pub proof fn lemma_str_lt_total(a: Seq<char>, b: Seq<char>)
    requires
        a != b,
    ensures
        str_lt(a, b) || str_lt(b, a),
{
    lemma_str_lt_total_from(a, b, 0);
}

proof fn lemma_str_lt_total_from(a: Seq<char>, b: Seq<char>, k: int)
    requires
        a != b,
        0 <= k <= a.len(),
        k <= b.len(),
        forall|j: int| 0 <= j < k ==> a[j] == b[j],
    ensures
        str_lt(a, b) || str_lt(b, a),
    decreases a.len() - k,
{
    if k == a.len() && k == b.len() {
        assert(a =~= b);
    } else if k == a.len() {
        assert(lt_at(a, b, k));
    } else if k == b.len() {
        assert(lt_at(b, a, k));
    } else if a[k] != b[k] {
        if (a[k] as int) < (b[k] as int) {
            assert(lt_at(a, b, k));
        } else {
            assert(a[k] as int != b[k] as int);
            assert(lt_at(b, a, k));
        }
    } else {
        lemma_str_lt_total_from(a, b, k + 1);
    }
}

/// The order is transitive.
pub proof fn lemma_str_lt_transitive(a: Seq<char>, b: Seq<char>, c: Seq<char>)
    requires
        str_lt(a, b),
        str_lt(b, c),
    ensures
        str_lt(a, c),
{
    let i = choose|i: int| lt_at(a, b, i);
    let k = choose|k: int| lt_at(b, c, k);
    if i <= k {
        assert(lt_at(a, c, i));
    } else {
        assert(a[k] == b[k]);
        assert(lt_at(a, c, k));
    }
}

/// Whether `a` comes before `b` in the order of `str`.
pub fn string_lt(a: &String, b: &String) -> (r: bool)
    ensures
        r == str_lt(a@, b@),
{
    let sa = a.as_str();
    let sb = b.as_str();
    let la = sa.unicode_len();
    let lb = sb.unicode_len();
    let mut i: usize = 0;
    while i < la && i < lb
        invariant
            sa@ == a@,
            sb@ == b@,
            la == a@.len(),
            lb == b@.len(),
            i <= la,
            i <= lb,
            forall|j: int| 0 <= j < i ==> a@[j] == b@[j],
        decreases la - i,
    {
        let ca = sa.get_char(i);
        let cb = sb.get_char(i);
        if ca != cb {
            proof {
                if (ca as u32) < (cb as u32) {
                    assert(lt_at(a@, b@, i as int));
                } else {
                    assert(ca as int != cb as int);
                    assert(lt_at(b@, a@, i as int));
                    lemma_str_lt_asymmetric(a@, b@);
                }
            }
            return (ca as u32) < (cb as u32);
        }
        i = i + 1;
    }
    proof {
        if la < lb {
            assert(lt_at(a@, b@, la as int));
        } else if str_lt(a@, b@) {
            let k = choose|k: int| lt_at(a@, b@, k);
            assert(a@[k] == b@[k]);
        }
    }
    la < lb
}

} // verus!

verus! {

/// What `{:?}` prints for a string: the text in double quotes, with the
/// characters that need it escaped.
pub uninterp spec fn str_debug(s: Seq<char>) -> Seq<char>;

/// The text that `format!("{:?}", s)` produces for a string; its contract
/// claims no more than that the result is that of std's `Debug` for `str`
/// applied to `s`, which depends on `s` alone.
#[verifier::external_body]
pub(crate) fn debug_quote(s: &str) -> (r: String)
    ensures
        r@ == str_debug(s@),
{
    format!("{:?}", s)
}

} // verus!

verus! {

/// The camel-case form of a name, as `convert_case` computes it for
/// `Case::Camel`.
pub uninterp spec fn camel_case(s: Seq<char>) -> Seq<char>;

/// `s.to_case(Case::Camel)` from `convert_case`; its contract claims only
/// that the result is that conversion of `s`, which depends on `s` alone.
#[verifier::external_body]
pub(crate) fn to_camel_case(s: &str) -> (r: String)
    ensures
        r@ == camel_case(s@),
{
    s.to_case(Case::Camel)
}

} // verus!
