//! Deterministic derivation of generated type names: snake_case to
//! UpperCamelCase conversion, decimal suffixes for colliding names, and
//! the per-derivation registry of name occurrence counts.

use vstd::prelude::*;

verus! {

/// Uppercases one ASCII letter; every other character is unchanged.
pub open spec fn upper_char(c: char) -> char {
    if 'a' <= c && c <= 'z' {
        ((c as int) - 32) as char
    } else {
        c
    }
}

/// Converts one ASCII lowercase letter to uppercase, leaving every
/// other character as it is.
pub fn to_upper_char(c: char) -> (r: char)
    ensures
        r == upper_char(c),
{
    match c {
        'a' => 'A',
        'b' => 'B',
        'c' => 'C',
        'd' => 'D',
        'e' => 'E',
        'f' => 'F',
        'g' => 'G',
        'h' => 'H',
        'i' => 'I',
        'j' => 'J',
        'k' => 'K',
        'l' => 'L',
        'm' => 'M',
        'n' => 'N',
        'o' => 'O',
        'p' => 'P',
        'q' => 'Q',
        'r' => 'R',
        's' => 'S',
        't' => 'T',
        'u' => 'U',
        'v' => 'V',
        'w' => 'W',
        'x' => 'X',
        'y' => 'Y',
        'z' => 'Z',
        _ => c,
    }
}

/// The case conversion, one character at a time: an underscore is dropped
/// and asks that the next character be capitalized; every other character
/// is passed through, uppercased when so asked.
pub open spec fn camel_seq(s: Seq<char>, capitalize_next: bool) -> Seq<char>
    decreases s.len(),
{
    if s.len() == 0 {
        Seq::empty()
    } else if s[0] == '_' {
        camel_seq(s.skip(1), true)
    } else if capitalize_next {
        seq![upper_char(s[0])] + camel_seq(s.skip(1), false)
    } else {
        seq![s[0]] + camel_seq(s.skip(1), false)
    }
}

/// UpperCamelCase form of a snake_case identifier: split on underscores,
/// capitalize at the start and after each underscore, drop the underscores,
/// pass all other characters through unchanged.
pub open spec fn upper_camel(s: Seq<char>) -> Seq<char> {
    camel_seq(s, true)
}

/// Relies on String::push: appends exactly one character at the end.
#[verifier::external_body]
fn push_char(s: &mut String, c: char)
    ensures
        final(s)@ == old(s)@.push(c),
{
    s.push(c)
}

/// Converts a snake_case identifier to UpperCamelCase.
pub fn convert_snake_case_to_upper_camel_case(ident: &str) -> (r: String)
    ensures
        r@ == upper_camel(ident@),
{
    let mut camel_case = String::new();
    let mut capitalize_next = true;
    let n = ident.unicode_len();
    let mut i: usize = 0;
    proof {
        assert(ident@.skip(0) =~= ident@);
        assert(Seq::<char>::empty() + camel_seq(ident@, true) =~= camel_seq(ident@, true));
    }
    while i < n
        invariant
            n == ident@.len(),
            i <= n,
            upper_camel(ident@) == camel_case@ + camel_seq(ident@.skip(i as int), capitalize_next),
        decreases n - i,
    {
        let c = ident.get_char(i);
        proof {
            assert(ident@.skip(i as int).len() == n - i);
            assert(ident@.skip(i as int)[0] == ident@[i as int]);
            assert(ident@.skip(i as int).skip(1) =~= ident@.skip(i as int + 1));
        }
        if c == '_' {
            capitalize_next = true;
        } else if capitalize_next {
            push_char(&mut camel_case, to_upper_char(c));
            capitalize_next = false;
            proof {
                assert(camel_case@ + camel_seq(ident@.skip(i as int + 1), false)
                    =~= (camel_case@.drop_last() + (seq![upper_char(c)]
                        + camel_seq(ident@.skip(i as int + 1), false))));
            }
        } else {
            push_char(&mut camel_case, c);
            proof {
                assert(camel_case@ + camel_seq(ident@.skip(i as int + 1), false)
                    =~= (camel_case@.drop_last() + (seq![c]
                        + camel_seq(ident@.skip(i as int + 1), false))));
            }
        }
        i += 1;
    }
    proof {
        assert(ident@.skip(n as int) =~= Seq::<char>::empty());
        assert(camel_case@ + Seq::<char>::empty() =~= camel_case@);
    }
    camel_case
}

/// The decimal digit character for one value below ten.
pub open spec fn dec_digit(d: int) -> char {
    if d == 0 {
        '0'
    } else if d == 1 {
        '1'
    } else if d == 2 {
        '2'
    } else if d == 3 {
        '3'
    } else if d == 4 {
        '4'
    } else if d == 5 {
        '5'
    } else if d == 6 {
        '6'
    } else if d == 7 {
        '7'
    } else if d == 8 {
        '8'
    } else {
        '9'
    }
}

/// The usual decimal rendering of a natural number, most significant
/// digit first, with no leading zeros (zero itself is rendered "0").
pub open spec fn dec_seq(n: nat) -> Seq<char>
    decreases n,
{
    if n < 10 {
        seq![dec_digit(n as int)]
    } else {
        dec_seq(n / 10).push(dec_digit((n % 10) as int))
    }
}

fn dec_digit_char(d: u16) -> (c: char)
    requires
        d < 10,
    ensures
        c == dec_digit(d as int),
{
    match d {
        0 => '0',
        1 => '1',
        2 => '2',
        3 => '3',
        4 => '4',
        5 => '5',
        6 => '6',
        7 => '7',
        8 => '8',
        _ => '9',
    }
}

/// Renders a counter value in decimal, as used for collision suffixes.
pub fn u16_to_decimal(n: u16) -> (s: String)
    ensures
        s@ == dec_seq(n as nat),
    decreases n,
{
    if n < 10 {
        let mut s = String::new();
        push_char(&mut s, dec_digit_char(n));
        proof {
            assert(s@ =~= seq![dec_digit(n as int)]);
        }
        s
    } else {
        let mut s = u16_to_decimal(n / 10);
        push_char(&mut s, dec_digit_char(n % 10));
        s
    }
}

/// The candidate base name for the stage that is still missing `field`:
/// `<record name>BuilderMissing<field name in UpperCamelCase>`.
pub open spec fn chain_base(struct_name: Seq<char>, field: Seq<char>) -> Seq<char> {
    struct_name + "BuilderMissing"@ + upper_camel(field)
}

/// The final generated name for a base name that has already occurred
/// `count` times: unsuffixed on the first occurrence, then the occurrence
/// count appended in decimal.
pub open spec fn suffixed_name(base: Seq<char>, count: nat) -> Seq<char> {
    if count == 0 {
        base
    } else {
        base + dec_seq(count)
    }
}

/// How many entries of `s` equal `b`.
pub open spec fn occ_count(s: Seq<Seq<char>>, b: Seq<char>) -> nat
    decreases s.len(),
{
    if s.len() == 0 {
        0
    } else {
        occ_count(s.drop_last(), b) + (if s.last() == b {
            1nat
        } else {
            0nat
        })
    }
}

/// How many of the base names strictly before position `i` equal the base
/// name at position `i`.
pub open spec fn prior_same(bases: Seq<Seq<char>>, i: int) -> nat {
    occ_count(bases.take(i), bases[i])
}

/// The base names of a record's required fields, in partitioned order.
pub open spec fn bases_of(struct_name: Seq<char>, req_names: Seq<Seq<char>>) -> Seq<Seq<char>> {
    req_names.map(|i: int, f: Seq<char>| chain_base(struct_name, f))
}

/// The unique generated name of the stage for required field `i`: its base
/// name, disambiguated with the count of earlier equal base names.
pub open spec fn chain_name(struct_name: Seq<char>, req_names: Seq<Seq<char>>, i: int) -> Seq<
    char,
> {
    suffixed_name(bases_of(struct_name, req_names)[i], prior_same(bases_of(struct_name, req_names), i))
}

/// Occurrence count of a base name in a registry: zero when the name has
/// never been seen.
pub open spec fn reg_count(m: Map<Seq<char>, u16>, b: Seq<char>) -> u16 {
    if m.contains_key(b) {
        m[b]
    } else {
        0
    }
}

proof fn lemma_dec_seq_len(n: nat)
    ensures
        dec_seq(n).len() >= 1,
        n >= 10 ==> dec_seq(n).len() >= 2,
    decreases n,
{
    if n >= 10 {
        lemma_dec_seq_len(n / 10);
    }
}

proof fn lemma_dec_seq_injective(a: nat, b: nat)
    requires
        dec_seq(a) == dec_seq(b),
    ensures
        a == b,
    decreases a,
{
    lemma_dec_seq_len(a);
    lemma_dec_seq_len(b);
    if a < 10 && b < 10 {
        assert(dec_seq(a)[0] == dec_digit(a as int));
        assert(dec_seq(b)[0] == dec_digit(b as int));
    } else if a < 10 {
        assert(dec_seq(a).len() == 1);
    } else if b < 10 {
        assert(dec_seq(b).len() == 1);
    } else {
        assert(dec_seq(a).last() == dec_digit((a % 10) as int));
        assert(dec_seq(b).last() == dec_digit((b % 10) as int));
        assert(a % 10 == b % 10);
        assert(dec_seq(a).drop_last() =~= dec_seq(a / 10));
        assert(dec_seq(b).drop_last() =~= dec_seq(b / 10));
        lemma_dec_seq_injective(a / 10, b / 10);
        assert(a == 10 * (a / 10) + a % 10);
        assert(b == 10 * (b / 10) + b % 10);
    }
}

proof fn lemma_append_left_cancel(a: Seq<char>, b: Seq<char>, c: Seq<char>)
    requires
        a + b == a + c,
    ensures
        b == c,
{
    assert((a + b).len() == a.len() + b.len());
    assert((a + c).len() == a.len() + c.len());
    assert(b.len() == c.len());
    assert forall|i: int| 0 <= i < b.len() implies b[i] == c[i] by {
        assert(0 <= i < c.len());
        assert((a + b)[a.len() + i] == b[i]);
        assert((a + c)[a.len() + i] == c[i]);
    }
    assert(b =~= c);
}

proof fn lemma_occ_take_grows(s: Seq<Seq<char>>, b: Seq<char>, i: int, j: int)
    requires
        0 <= i < j <= s.len(),
        s[i] == b,
    ensures
        occ_count(s.take(i), b) < occ_count(s.take(j), b),
    decreases j,
{
    if j == i + 1 {
        assert(s.take(j).drop_last() =~= s.take(i));
        assert(s.take(j).last() == s[i]);
    } else {
        lemma_occ_take_grows(s, b, i, j - 1);
        assert(s.take(j).drop_last() =~= s.take(j - 1));
    }
}

/// Law of collision numbering: two required fields whose case-converted
/// candidate base names collide never receive the same generated stage
/// name. The first occurrence keeps the base name unsuffixed (its prior
/// occurrence count is zero), and each later occurrence appends its prior
/// occurrence count — 1, 2, 3, … in first-encountered order — so the names
/// within one collision class are pairwise distinct.
pub proof fn lemma_colliding_names_distinct(
    struct_name: Seq<char>,
    req_names: Seq<Seq<char>>,
    i: int,
    j: int,
)
    requires
        0 <= i < j < req_names.len(),
        bases_of(struct_name, req_names)[i] == bases_of(struct_name, req_names)[j],
    ensures
        chain_name(struct_name, req_names, i) != chain_name(struct_name, req_names, j),
{
    let bases = bases_of(struct_name, req_names);
    let base = bases[i];
    let ci = prior_same(bases, i);
    let cj = prior_same(bases, j);
    lemma_occ_take_grows(bases, base, i, j);
    assert(ci < cj);
    lemma_dec_seq_len(cj);
    if ci == 0 {
        assert(chain_name(struct_name, req_names, i).len() == base.len());
        assert(chain_name(struct_name, req_names, j).len() == base.len() + dec_seq(cj).len());
    } else {
        lemma_dec_seq_len(ci);
        if chain_name(struct_name, req_names, i) == chain_name(struct_name, req_names, j) {
            lemma_append_left_cancel(base, dec_seq(ci), dec_seq(cj));
            lemma_dec_seq_injective(ci, cj);
        }
    }
}

/// A registry state agrees with a sequence of base names when it records
/// exactly the names that occur in the sequence, each with its occurrence
/// count.
pub open spec fn registry_matches(m: Map<Seq<char>, u16>, bases: Seq<Seq<char>>) -> bool {
    &&& forall|b: Seq<char>| #[trigger] m.contains_key(b) ==> m[b] == occ_count(bases, b)
    &&& forall|b: Seq<char>| occ_count(bases, b) > 0 ==> m.contains_key(b)
}

pub proof fn lemma_occ_le_len(s: Seq<Seq<char>>, b: Seq<char>)
    ensures
        occ_count(s, b) <= s.len(),
    decreases s.len(),
{
    if s.len() > 0 {
        lemma_occ_le_len(s.drop_last(), b);
    }
}

/// Resolving the base name at position `i` against a registry that agrees
/// with the first `i` base names reads that name's prior occurrence count,
/// and recording the incremented count leaves the registry agreeing with
/// the first `i + 1` base names.
pub proof fn lemma_registry_step(m: Map<Seq<char>, u16>, bases: Seq<Seq<char>>, i: int)
    requires
        0 <= i < bases.len(),
        registry_matches(m, bases.take(i)),
        reg_count(m, bases[i]) < 65535,
    ensures
        reg_count(m, bases[i]) == prior_same(bases, i),
        registry_matches(
            m.insert(bases[i], (reg_count(m, bases[i]) + 1) as u16),
            bases.take(i + 1),
        ),
{
    let pre = bases.take(i);
    let post = bases.take(i + 1);
    assert(post.drop_last() =~= pre);
    assert(post.last() == bases[i]);
    if occ_count(pre, bases[i]) > 0 {
        assert(m.contains_key(bases[i]));
    }
    let m2 = m.insert(bases[i], (reg_count(m, bases[i]) + 1) as u16);
    assert forall|b: Seq<char>| #[trigger] m2.contains_key(b) implies m2[b] == occ_count(
        post,
        b,
    ) by {
        if b == bases[i] {
            assert(occ_count(post, b) == occ_count(pre, b) + 1);
        } else {
            assert(occ_count(post, b) == occ_count(pre, b));
            assert(m.contains_key(b));
        }
    }
    assert forall|b: Seq<char>| occ_count(post, b) > 0 implies m2.contains_key(b) by {
        if b != bases[i] {
            assert(occ_count(post, b) == occ_count(pre, b));
        }
    }
}

/// The registry of candidate base names already used in one derivation,
/// mapping each to its occurrence count. It lives for a single derivation.
pub struct NameRegistry {
    entries: Vec<(String, u16)>,
}

/// The mapping that a sequence of (name, count) entries denotes: a later
/// entry for the same name supersedes an earlier one.
pub closed spec fn map_of(entries: Seq<(String, u16)>) -> Map<Seq<char>, u16>
    decreases entries.len(),
{
    if entries.len() == 0 {
        Map::empty()
    } else {
        map_of(entries.drop_last()).insert(entries.last().0@, entries.last().1)
    }
}

impl View for NameRegistry {
    type V = Map<Seq<char>, u16>;

    closed spec fn view(&self) -> Map<Seq<char>, u16> {
        map_of(self.entries@)
    }
}

impl NameRegistry {
    /// An empty registry: no base name has been seen yet.
    pub fn new() -> (r: NameRegistry)
        ensures
            r@ == Map::<Seq<char>, u16>::empty(),
    {
        NameRegistry { entries: Vec::new() }
    }

    /// The count recorded for `key`, or `None` when `key` was never recorded.
    pub fn get_count(&self, key: &String) -> (r: Option<u16>)
        ensures
            r == (if self@.contains_key(key@) {
                Some(self@[key@])
            } else {
                None::<u16>
            }),
    {
        let ghost full = self.entries@;
        let mut i = self.entries.len();
        proof {
            assert(full.take(i as int) =~= full);
        }
        while i > 0
            invariant
                i <= full.len(),
                full == self.entries@,
                map_of(full).contains_key(key@) == map_of(full.take(i as int)).contains_key(key@),
                map_of(full).contains_key(key@) ==> map_of(full)[key@] == map_of(
                    full.take(i as int),
                )[key@],
            decreases i,
        {
            i = i - 1;
            proof {
                assert(full.take(i as int + 1).drop_last() =~= full.take(i as int));
                assert(full.take(i as int + 1).last() == full[i as int]);
            }
            if self.entries[i].0 == *key {
                return Some(self.entries[i].1);
            }
        }
        proof {
            assert(full.take(0) =~= Seq::<(String, u16)>::empty());
        }
        None
    }

    /// Records `v` as the count for `key`, superseding any earlier record.
    pub fn set_count(&mut self, key: &String, v: u16)
        ensures
            final(self)@ == old(self)@.insert(key@, v),
    {
        let k = key.clone();
        self.entries.push((k, v));
        proof {
            assert(self.entries@.drop_last() =~= old(self).entries@);
        }
    }
}

} // verus!
