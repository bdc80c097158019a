//! The JSON texts that the library hands to its callers.
//!
//! Strings and numbers are rendered by `serde_json`; this module puts them
//! together into the compact objects that serializing the equivalent
//! structs (or a `BTreeMap<String, String>`) would produce: members in
//! declaration (or key) order, no whitespace.

use vstd::prelude::*;

use crate::error::VodozemacError;
use crate::text::{
    lemma_str_lt_asymmetric, lemma_str_lt_irreflexive, lemma_str_lt_total,
    lemma_str_lt_transitive, str_less, str_lt,
};

verus! {

/// The lowercase hexadecimal digit for `d < 16`.
pub open spec fn hex_digit(d: nat) -> char {
    if d < 10 {
        digit_char(d)
    } else if d == 10 {
        'a'
    } else if d == 11 {
        'b'
    } else if d == 12 {
        'c'
    } else if d == 13 {
        'd'
    } else if d == 14 {
        'e'
    } else {
        'f'
    }
}

/// How `serde_json` writes one character inside a string literal: the
/// quote and the backslash escaped with a backslash; backspace, tab, line
/// feed, form feed and carriage return as `\b`, `\t`, `\n`, `\f`, `\r`;
/// the other control characters below U+0020 as `\u00` and two lowercase
/// hex digits; every other character as itself.
pub open spec fn escaped_char(c: char) -> Seq<char> {
    if c == '"' {
        seq!['\\', '"']
    } else if c == '\\' {
        seq!['\\', '\\']
    } else if c == '\u{8}' {
        seq!['\\', 'b']
    } else if c == '\t' {
        seq!['\\', 't']
    } else if c == '\n' {
        seq!['\\', 'n']
    } else if c == '\u{c}' {
        seq!['\\', 'f']
    } else if c == '\r' {
        seq!['\\', 'r']
    } else if (c as nat) < 32 {
        seq!['\\', 'u', '0', '0', hex_digit((c as nat) / 16), hex_digit((c as nat) % 16)]
    } else {
        seq![c]
    }
}

/// The characters of `s`, each escaped as in a JSON string literal.
pub open spec fn escaped(s: Seq<char>) -> Seq<char>
    decreases s.len(),
{
    if s.len() == 0 {
        Seq::empty()
    } else {
        escaped(s.drop_last()) + escaped_char(s.last())
    }
}

/// What `serde_json::to_string` makes of a string: the JSON string literal,
/// its characters escaped between two double quotes.
pub open spec fn json_string_literal(s: Seq<char>) -> Seq<char> {
    seq!['"'] + escaped(s) + seq!['"']
}

/// The value of a hexadecimal digit (either case), if `c` is one.
pub open spec fn hex_value(c: char) -> Option<nat> {
    if c == '0' {
        Some(0)
    } else if c == '1' {
        Some(1)
    } else if c == '2' {
        Some(2)
    } else if c == '3' {
        Some(3)
    } else if c == '4' {
        Some(4)
    } else if c == '5' {
        Some(5)
    } else if c == '6' {
        Some(6)
    } else if c == '7' {
        Some(7)
    } else if c == '8' {
        Some(8)
    } else if c == '9' {
        Some(9)
    } else if c == 'a' || c == 'A' {
        Some(10)
    } else if c == 'b' || c == 'B' {
        Some(11)
    } else if c == 'c' || c == 'C' {
        Some(12)
    } else if c == 'd' || c == 'D' {
        Some(13)
    } else if c == 'e' || c == 'E' {
        Some(14)
    } else if c == 'f' || c == 'F' {
        Some(15)
    } else {
        None
    }
}

/// The character a one-letter JSON escape (after the backslash) stands
/// for.
pub open spec fn short_escape_value(e: char) -> Option<char> {
    if e == '"' {
        Some('"')
    } else if e == '\\' {
        Some('\\')
    } else if e == '/' {
        Some('/')
    } else if e == 'b' {
        Some('\u{8}')
    } else if e == 'f' {
        Some('\u{c}')
    } else if e == 'n' {
        Some('\n')
    } else if e == 'r' {
        Some('\r')
    } else if e == 't' {
        Some('\t')
    } else {
        None
    }
}

/// Reads the inside of a JSON string literal as a JSON reader does: the
/// characters up to the first unescaped double quote, with the escapes
/// `\"`, `\\`, `\/`, `\b`, `\f`, `\n`, `\r`, `\t` and `\uXXXX` (a code
/// point below U+10000 that is a character) undone. Gives the text and
/// what follows the closing quote, or `None` when no closing quote comes
/// or an escape is malformed.
pub open spec fn read_string_body(t: Seq<char>) -> Option<(Seq<char>, Seq<char>)>
    decreases t.len(),
{
    if t.len() == 0 {
        None
    } else if t[0] == '"' {
        Some((Seq::empty(), t.drop_first()))
    } else if t[0] == '\\' {
        if t.len() < 2 {
            None
        } else if t[1] == 'u' {
            if t.len() < 6 {
                None
            } else {
                match (hex_value(t[2]), hex_value(t[3]), hex_value(t[4]), hex_value(t[5])) {
                    (Some(a), Some(b), Some(c), Some(d)) => {
                        let v: nat = ((a * 16 + b) * 16 + c) * 16 + d;
                        if (v < 0xD800 || (0xE000 <= v && v < 0x10000)) {
                            match read_string_body(t.subrange(6, t.len() as int)) {
                                Some(r) => Some((seq![v as char] + r.0, r.1)),
                                None => None,
                            }
                        } else {
                            None
                        }
                    },
                    _ => None,
                }
            }
        } else {
            match short_escape_value(t[1]) {
                Some(ch) => match read_string_body(t.subrange(2, t.len() as int)) {
                    Some(r) => Some((seq![ch] + r.0, r.1)),
                    None => None,
                },
                None => None,
            }
        }
    } else {
        match read_string_body(t.drop_first()) {
            Some(r) => Some((seq![t[0]] + r.0, r.1)),
            None => None,
        }
    }
}

/// Reads a JSON string literal at the start of `t`: its text and what
/// follows it.
pub open spec fn read_string_literal(t: Seq<char>) -> Option<(Seq<char>, Seq<char>)> {
    if t.len() > 0 && t[0] == '"' {
        read_string_body(t.drop_first())
    } else {
        None
    }
}

/// Escaping a text one character at a time from the front.
proof fn lemma_escaped_front(c: char, s: Seq<char>)
    ensures
        escaped(seq![c] + s) == escaped_char(c) + escaped(s),
    decreases s.len(),
{
    if s.len() == 0 {
        assert((seq![c] + s).drop_last() =~= Seq::<char>::empty());
        assert(escaped(Seq::<char>::empty()) =~= Seq::<char>::empty());
        assert(escaped(seq![c] + s) =~= escaped_char(c) + escaped(s));
    } else {
        let u = seq![c] + s;
        assert(u.drop_last() =~= seq![c] + s.drop_last());
        assert(u.last() == s.last());
        lemma_escaped_front(c, s.drop_last());
        assert(escaped(u) =~= escaped_char(c) + escaped(s));
    }
}

/// A hexadecimal digit reads back as its value.
proof fn lemma_hex_digit_value(d: nat)
    requires
        d < 16,
    ensures
        hex_value(hex_digit(d)) == Some(d),
{
}

/// Reading past one escaped character gives that character back.
proof fn lemma_read_escaped_char(c: char, rest: Seq<char>)
    ensures
        read_string_body(escaped_char(c) + rest) == match read_string_body(rest) {
            Some(r) => Some((seq![c] + r.0, r.1)),
            None => None::<(Seq<char>, Seq<char>)>,
        },
{
    let t = escaped_char(c) + rest;
    if c == '"' || c == '\\' || c == '\u{8}' || c == '\t' || c == '\n' || c == '\u{c}' || c == '\r' {
        assert(t.subrange(2, t.len() as int) =~= rest);
    } else if (c as nat) < 32 {
        let n = c as nat;
        lemma_hex_digit_value(n / 16);
        lemma_hex_digit_value(n % 16);
        assert(t.subrange(6, t.len() as int) =~= rest);
        assert(((0nat * 16 + 0nat) * 16 + n / 16) * 16 + n % 16 == n) by (nonlinear_arith);
        assert((n as char) == c);
    } else {
        assert(t.drop_first() =~= rest);
    }
}

/// Reading an escaped text followed by a closing quote gives the text back
/// and stops right after the quote.
proof fn lemma_read_escaped(s: Seq<char>, rest: Seq<char>)
    ensures
        read_string_body(escaped(s) + seq!['"'] + rest) == Some((s, rest)),
    decreases s.len(),
{
    if s.len() == 0 {
        assert(escaped(s) =~= Seq::<char>::empty());
        let t = escaped(s) + seq!['"'] + rest;
        assert(t.drop_first() =~= rest);
    } else {
        let c = s[0];
        let s2 = s.drop_first();
        assert(s =~= seq![c] + s2);
        lemma_escaped_front(c, s2);
        assert(escaped(s) + seq!['"'] + rest =~= escaped_char(c) + (escaped(s2) + seq!['"'] + rest));
        lemma_read_escaped_char(c, escaped(s2) + seq!['"'] + rest);
        lemma_read_escaped(s2, rest);
        assert(seq![c] + s2 =~= s);
    }
}

/// A JSON string literal reads back as the text it was written from,
/// whatever follows it: writing a string loses, adds and changes no
/// character, and the reader stops right after the literal.
pub proof fn lemma_json_string_literal_reads_back(s: Seq<char>, rest: Seq<char>)
    ensures
        read_string_literal(json_string_literal(s) + rest) == Some((s, rest)),
{
    let t = json_string_literal(s) + rest;
    assert(t.drop_first() =~= escaped(s) + seq!['"'] + rest);
    lemma_read_escaped(s, rest);
}

/// Different texts give different JSON string literals.
pub proof fn lemma_json_string_literal_injective(s1: Seq<char>, s2: Seq<char>)
    requires
        json_string_literal(s1) == json_string_literal(s2),
    ensures
        s1 == s2,
{
    lemma_json_string_literal_reads_back(s1, Seq::empty());
    lemma_json_string_literal_reads_back(s2, Seq::empty());
    assert(json_string_literal(s1) + Seq::<char>::empty() =~= json_string_literal(s1));
    assert(json_string_literal(s2) + Seq::<char>::empty() =~= json_string_literal(s2));
}

/// Renders `s` as a JSON string literal, mapping a serializer error as the
/// rest of the library does (there is none for a string).
pub fn json_quote_checked(s: &str) -> (r: Result<String, VodozemacError>)
    ensures
        r matches Ok(t) && t@ == json_string_literal(s@),
{
    match json_quote(s) {
        Ok(t) => Ok(t),
        Err(reason) => Err(VodozemacError::Internal { reason }),
    }
}

/// Calls `serde_json::to_string::<str>`: the result is the JSON string
/// literal of `s` (`format_escaped_str` with the `ESCAPE` table). The call writes into a `Vec<u8>`, whose `io::Write`
/// never fails, so the contract claims `Ok`.
#[verifier::external_body]
fn json_quote(s: &str) -> (r: Result<String, String>)
    ensures
        r is Ok,
        r matches Ok(t) ==> t@ == json_string_literal(s@),
{
    match serde_json::to_string(s) {
        Ok(t) => Ok(t),
        Err(e) => Err(e.to_string()),
    }
}

/// The decimal digit for `d < 10`.
pub open spec fn digit_char(d: nat) -> char {
    if d == 0 {
        '0'
    } else if d == 1 {
        '1'
    } else if d == 2 {
        '2'
    } else if d == 3 {
        '3'
    } else if d == 4 {
        '4'
    } else if d == 5 {
        '5'
    } else if d == 6 {
        '6'
    } else if d == 7 {
        '7'
    } else if d == 8 {
        '8'
    } else {
        '9'
    }
}

/// The shortest decimal spelling of `n`.
pub open spec fn decimal(n: nat) -> Seq<char>
    decreases n,
{
    if n < 10 {
        seq![digit_char(n)]
    } else {
        decimal(n / 10) + seq![digit_char(n % 10)]
    }
}

/// Calls `serde_json::to_string::<u32>`, which writes the decimal digits
/// of `n` (through `itoa`) into a `Vec<u8>`; that write never fails, so the
/// contract claims `Ok` with the shortest decimal spelling.
#[verifier::external_body]
fn json_number(n: u32) -> (r: Result<String, String>)
    ensures
        r is Ok,
        r matches Ok(t) ==> t@ == decimal(n as nat),
{
    match serde_json::to_string(&n) {
        Ok(t) => Ok(t),
        Err(e) => Err(e.to_string()),
    }
}

/// Renders a number as JSON, mapping a serializer error as the rest of the
/// library does.
pub fn json_number_checked(n: u32) -> (r: Result<String, VodozemacError>)
    ensures
        r matches Ok(t) && t@ == decimal(n as nat),
{
    match json_number(n) {
        Ok(t) => Ok(t),
        Err(reason) => Err(VodozemacError::Internal { reason }),
    }
}

/// One member `"key":value` of an object; the value is already JSON.
pub open spec fn json_member(m: (Seq<char>, Seq<char>)) -> Seq<char> {
    json_string_literal(m.0) + seq![':'] + m.1
}

/// The members of an object, separated by commas.
pub open spec fn json_members(ms: Seq<(Seq<char>, Seq<char>)>) -> Seq<char>
    decreases ms.len(),
{
    if ms.len() == 0 {
        seq![]
    } else if ms.len() == 1 {
        json_member(ms[0])
    } else {
        json_members(ms.drop_last()) + seq![','] + json_member(ms.last())
    }
}

/// A compact JSON object with the given members, in the given order.
pub open spec fn json_object(ms: Seq<(Seq<char>, Seq<char>)>) -> Seq<char> {
    seq!['{'] + json_members(ms) + seq!['}']
}

/// The views of a vector of string pairs.
pub open spec fn pairs_view(v: Seq<(String, String)>) -> Seq<(Seq<char>, Seq<char>)> {
    v.map_values(|e: (String, String)| (e.0@, e.1@))
}

/// Writes an object whose members are `(key, JSON value)` pairs.
pub fn write_object(members: &Vec<(String, String)>) -> (r: Result<String, VodozemacError>)
    ensures
        r matches Ok(s) && s@ == json_object(pairs_view(members@)),
{
    let ghost ms = pairs_view(members@);
    let mut out = String::new();
    out.append("{");
    proof {
        reveal_strlit("{");
        reveal_strlit(",");
        reveal_strlit(":");
        reveal_strlit("}");
        assert(ms.take(0) =~= Seq::<(Seq<char>, Seq<char>)>::empty());
        assert(out@ =~= seq!['{'] + json_members(ms.take(0)));
    }
    let n = members.len();
    let mut i: usize = 0;
    while i < n
        invariant
            n == members@.len(),
            ms == pairs_view(members@),
            i <= n,
            out@ == seq!['{'] + json_members(ms.take(i as int)),
        decreases n - i,
    {
        let ghost before = out@;
        if i > 0 {
            out.append(",");
        }
        let key = match json_quote(members[i].0.as_str()) {
            Ok(t) => t,
            Err(reason) => {
                return Err(VodozemacError::Internal { reason });
            },
        };
        out.append(key.as_str());
        out.append(":");
        out.append(members[i].1.as_str());
        proof {
            reveal_strlit(",");
            reveal_strlit(":");
            let t = ms.take(i + 1);
            assert(t.drop_last() =~= ms.take(i as int));
            assert(t.last() == ms[i as int]);
            if i == 0 {
                assert(out@ =~= seq!['{'] + json_members(t));
            } else {
                assert(out@ =~= seq!['{'] + json_members(t));
            }
        }
        i = i + 1;
    }
    out.append("}");
    proof {
        reveal_strlit("}");
        assert(ms.take(n as int) =~= ms);
        assert(out@ =~= json_object(ms));
    }
    Ok(out)
}

/// `s` lists the entries of the finite map `m`, each key once.
pub open spec fn lists_map(s: Seq<(Seq<char>, Seq<char>)>, m: Map<Seq<char>, Seq<char>>) -> bool {
    &&& m.dom().finite()
    &&& s.len() == m.dom().len()
    &&& forall|i: int| 0 <= i < s.len() ==> #[trigger] m.contains_key(s[i].0) && m[s[i].0] == s[i].1
    &&& forall|i: int, j: int|
        0 <= i < s.len() && 0 <= j < s.len() && i != j ==> #[trigger] s[i].0 != #[trigger] s[j].0
}

/// The keys of `s` ascend strictly.
pub open spec fn keys_ascending(s: Seq<(Seq<char>, Seq<char>)>) -> bool {
    forall|i: int, j: int| 0 <= i < j < s.len() ==> str_lt(#[trigger] s[i].0, #[trigger] s[j].0)
}

/// The entries of `m` in ascending key order, as a `BTreeMap` walks them.
pub open spec fn sorted_listing(m: Map<Seq<char>, Seq<char>>) -> Seq<(Seq<char>, Seq<char>)> {
    choose|s: Seq<(Seq<char>, Seq<char>)>| lists_map(s, m) && keys_ascending(s)
}

/// Every key of the map occurs in a listing of it.
pub(crate) proof fn lemma_listing_covers(s: Seq<(Seq<char>, Seq<char>)>, m: Map<Seq<char>, Seq<char>>, k: Seq<char>)
    requires
        lists_map(s, m),
        m.contains_key(k),
    ensures
        exists|i: int| 0 <= i < s.len() && s[i].0 == k,
{
    let ks = s.map_values(|e: (Seq<char>, Seq<char>)| e.0);
    assert(ks.no_duplicates()) by {
        assert forall|i: int, j: int| 0 <= i < ks.len() && 0 <= j < ks.len() && i != j implies ks[i]
            != ks[j] by {
            assert(s[i].0 != s[j].0);
        }
    }
    ks.unique_seq_to_set();
    assert(ks.to_set().subset_of(m.dom())) by {
        assert forall|x: Seq<char>| ks.to_set().contains(x) implies m.dom().contains(x) by {
            let i = choose|i: int| 0 <= i < ks.len() && ks[i] == x;
            assert(m.contains_key(s[i].0));
        }
    }
    vstd::set_lib::lemma_subset_equality(ks.to_set(), m.dom());
    assert(ks.to_set().contains(k));
    let i = choose|i: int| 0 <= i < ks.len() && ks[i] == k;
    assert(s[i].0 == k);
}

/// A map has one listing in ascending key order: the order of a
/// `BTreeMap` is determined by its contents.
pub proof fn lemma_sorted_listing_unique(
    a: Seq<(Seq<char>, Seq<char>)>,
    b: Seq<(Seq<char>, Seq<char>)>,
    m: Map<Seq<char>, Seq<char>>,
)
    requires
        lists_map(a, m),
        keys_ascending(a),
        lists_map(b, m),
        keys_ascending(b),
    ensures
        a == b,
    decreases a.len(),
{
    if a.len() == 0 {
        assert(a =~= b);
    } else {
        let ka = a[0].0;
        let kb = b[0].0;
        lemma_listing_covers(b, m, ka);
        lemma_listing_covers(a, m, kb);
        let j = choose|j: int| 0 <= j < b.len() && b[j].0 == ka;
        let i = choose|i: int| 0 <= i < a.len() && a[i].0 == kb;
        if ka != kb {
            assert(j != 0);
            assert(i != 0);
            assert(str_lt(kb, ka));
            assert(str_lt(ka, kb));
            lemma_str_lt_asymmetric(ka, kb);
        }
        let m2 = m.remove(ka);
        let a2 = a.drop_first();
        let b2 = b.drop_first();
        assert(m2.dom() =~= m.dom().remove(ka));
        assert forall|x: int| 0 <= x < a2.len() implies #[trigger] m2.contains_key(a2[x].0) && m2[a2[x].0]
            == a2[x].1 by {
            assert(a2[x] == a[x + 1]);
            assert(a[x + 1].0 != a[0].0);
        }
        assert forall|x: int| 0 <= x < b2.len() implies #[trigger] m2.contains_key(b2[x].0) && m2[b2[x].0]
            == b2[x].1 by {
            assert(b2[x] == b[x + 1]);
            assert(b[x + 1].0 != b[0].0);
        }
        assert forall|x: int, y: int|
            0 <= x < a2.len() && 0 <= y < a2.len() && x != y implies #[trigger] a2[x].0
            != #[trigger] a2[y].0 by {
            assert(a[x + 1].0 != a[y + 1].0);
        }
        assert forall|x: int, y: int|
            0 <= x < b2.len() && 0 <= y < b2.len() && x != y implies #[trigger] b2[x].0
            != #[trigger] b2[y].0 by {
            assert(b[x + 1].0 != b[y + 1].0);
        }
        assert forall|x: int, y: int| 0 <= x < y < a2.len() implies str_lt(
            #[trigger] a2[x].0,
            #[trigger] a2[y].0,
        ) by {
            assert(str_lt(a[x + 1].0, a[y + 1].0));
        }
        assert forall|x: int, y: int| 0 <= x < y < b2.len() implies str_lt(
            #[trigger] b2[x].0,
            #[trigger] b2[y].0,
        ) by {
            assert(str_lt(b[x + 1].0, b[y + 1].0));
        }
        lemma_sorted_listing_unique(a2, b2, m2);
        assert(a[0] == b[0]);
        assert(a =~= seq![a[0]] + a2);
        assert(b =~= seq![b[0]] + b2);
    }
}

/// A listing in ascending key order is the sorted listing of the map.
pub proof fn lemma_is_sorted_listing(s: Seq<(Seq<char>, Seq<char>)>, m: Map<Seq<char>, Seq<char>>)
    requires
        lists_map(s, m),
        keys_ascending(s),
    ensures
        sorted_listing(m) == s,
{
    let t = sorted_listing(m);
    assert(lists_map(t, m) && keys_ascending(t));
    lemma_sorted_listing_unique(t, s, m);
}

/// An entry of a vector of string pairs is an entry of `m`.
pub open spec fn entry_of(e: (String, String), m: Map<Seq<char>, Seq<char>>) -> bool {
    m.contains_key(e.0@) && m[e.0@] == e.1@
}

/// Sorts the entries of a map by key (selection sort).
fn sort_by_key(v: Vec<(String, String)>, Ghost(m): Ghost<Map<Seq<char>, Seq<char>>>) -> (r: Vec<
    (String, String),
>)
    requires
        lists_map(pairs_view(v@), m),
    ensures
        lists_map(pairs_view(r@), m),
        keys_ascending(pairs_view(r@)),
{
    let ghost n = v@.len();
    let mut rest = v;
    let mut out: Vec<(String, String)> = Vec::new();
    proof {
        assert forall|i: int| 0 <= i < rest@.len() implies #[trigger] entry_of(rest@[i], m) by {
            assert(pairs_view(rest@)[i] == (rest@[i].0@, rest@[i].1@));
            assert(m.contains_key(pairs_view(rest@)[i].0));
        }
        assert forall|i: int, j: int|
            0 <= i < rest@.len() && 0 <= j < rest@.len() && i != j implies #[trigger] rest@[i].0@
            != #[trigger] rest@[j].0@ by {
            assert(pairs_view(rest@)[i].0 != pairs_view(rest@)[j].0);
        }
    }
    while rest.len() > 0
        invariant
            m.dom().finite(),
            n == m.dom().len(),
            out@.len() + rest@.len() == n,
            forall|i: int| 0 <= i < out@.len() ==> #[trigger] entry_of(out@[i], m),
            forall|i: int| 0 <= i < rest@.len() ==> #[trigger] entry_of(rest@[i], m),
            forall|i: int, j: int|
                0 <= i < j < out@.len() ==> str_lt(#[trigger] out@[i].0@, #[trigger] out@[j].0@),
            forall|i: int, j: int|
                0 <= i < out@.len() && 0 <= j < rest@.len() ==> str_lt(
                    #[trigger] out@[i].0@,
                    #[trigger] rest@[j].0@,
                ),
            forall|i: int, j: int|
                0 <= i < rest@.len() && 0 <= j < rest@.len() && i != j ==> #[trigger] rest@[i].0@
                    != #[trigger] rest@[j].0@,
        decreases rest@.len(),
    {
        let len = rest.len();
        let mut best: usize = 0;
        let mut j: usize = 1;
        while j < len
            invariant
                len == rest@.len(),
                1 <= j <= len,
                best < j,
                forall|x: int, y: int|
                    0 <= x < rest@.len() && 0 <= y < rest@.len() && x != y ==> #[trigger] rest@[x].0@
                        != #[trigger] rest@[y].0@,
                forall|x: int| 0 <= x < j && x != best ==> str_lt(rest@[best as int].0@, #[trigger] rest@[x].0@),
            decreases len - j,
        {
            if str_less(rest[j].0.as_str(), rest[best].0.as_str()) {
                proof {
                    assert forall|x: int| 0 <= x < j + 1 && x != j implies str_lt(
                        rest@[j as int].0@,
                        #[trigger] rest@[x].0@,
                    ) by {
                        if x != best {
                            lemma_str_lt_transitive(
                                rest@[j as int].0@,
                                rest@[best as int].0@,
                                rest@[x].0@,
                            );
                        }
                    }
                }
                best = j;
            } else {
                proof {
                    lemma_str_lt_total(rest@[j as int].0@, rest@[best as int].0@);
                }
            }
            j = j + 1;
        }
        let ghost old_rest = rest@;
        let ghost old_out = out@;
        let e = rest.remove(best);
        out.push(e);
        proof {
            assert(entry_of(old_rest[best as int], m));
            assert forall|i: int| 0 <= i < rest@.len() implies #[trigger] entry_of(rest@[i], m) by {
                if i < best {
                    assert(rest@[i] == old_rest[i]);
                } else {
                    assert(rest@[i] == old_rest[i + 1]);
                }
            }
            assert forall|i: int| 0 <= i < out@.len() implies #[trigger] entry_of(out@[i], m) by {
                if i < old_out.len() {
                    assert(out@[i] == old_out[i]);
                }
            }
            assert forall|i: int, k: int| 0 <= i < k < out@.len() implies str_lt(
                #[trigger] out@[i].0@,
                #[trigger] out@[k].0@,
            ) by {
                assert(out@[i] == old_out[i]);
                if k < old_out.len() {
                    assert(out@[k] == old_out[k]);
                } else {
                    assert(out@[k] == old_rest[best as int]);
                    assert(str_lt(old_out[i].0@, old_rest[best as int].0@));
                }
            }
            assert forall|i: int, k: int| 0 <= i < out@.len() && 0 <= k < rest@.len() implies str_lt(
                #[trigger] out@[i].0@,
                #[trigger] rest@[k].0@,
            ) by {
                let kk = if k < best {
                    k
                } else {
                    k + 1
                };
                assert(rest@[k] == old_rest[kk]);
                if i < old_out.len() {
                    assert(out@[i] == old_out[i]);
                    assert(str_lt(old_out[i].0@, old_rest[kk].0@));
                } else {
                    assert(out@[i] == old_rest[best as int]);
                    assert(kk != best);
                    assert(str_lt(old_rest[best as int].0@, old_rest[kk].0@));
                }
            }
            assert forall|i: int, k: int|
                0 <= i < rest@.len() && 0 <= k < rest@.len() && i != k implies #[trigger] rest@[i].0@
                != #[trigger] rest@[k].0@ by {
                let ii = if i < best {
                    i
                } else {
                    i + 1
                };
                let kk = if k < best {
                    k
                } else {
                    k + 1
                };
                assert(rest@[i] == old_rest[ii]);
                assert(rest@[k] == old_rest[kk]);
            }
        }
    }
    proof {
        let pv = pairs_view(out@);
        assert forall|i: int| 0 <= i < pv.len() implies #[trigger] m.contains_key(pv[i].0) && m[pv[i].0]
            == pv[i].1 by {
            assert(entry_of(out@[i], m));
        }
        assert forall|i: int, k: int| 0 <= i < k < pv.len() implies str_lt(
            #[trigger] pv[i].0,
            #[trigger] pv[k].0,
        ) by {
            assert(str_lt(out@[i].0@, out@[k].0@));
        }
        assert forall|i: int, k: int| 0 <= i < pv.len() && 0 <= k < pv.len() && i != k implies #[trigger] pv[i].0
            != #[trigger] pv[k].0 by {
            if i < k {
                assert(str_lt(pv[i].0, pv[k].0));
                lemma_str_lt_irreflexive(pv[i].0);
            } else {
                assert(str_lt(pv[k].0, pv[i].0));
                lemma_str_lt_irreflexive(pv[k].0);
            }
        }
    }
    out
}

/// The entries of a listing with each value rendered as a JSON string.
pub open spec fn quote_values(s: Seq<(Seq<char>, Seq<char>)>) -> Seq<(Seq<char>, Seq<char>)> {
    s.map_values(|e: (Seq<char>, Seq<char>)| (e.0, json_string_literal(e.1)))
}

/// `{"curve25519":{"<key id>":"<public key>",...}}` for a map of keys, with
/// the key ids in ascending order.
pub open spec fn curve_key_map_json(m: Map<Seq<char>, Seq<char>>) -> Seq<char> {
    json_object(seq![("curve25519"@, json_object(quote_values(sorted_listing(m))))])
}

/// Writes the JSON of a map of keys from a listing of its entries in any
/// order.
pub(crate) fn write_curve_key_map(
    entries: Vec<(String, String)>,
    Ghost(m): Ghost<Map<Seq<char>, Seq<char>>>,
) -> (r: Result<String, VodozemacError>)
    requires
        lists_map(pairs_view(entries@), m),
    ensures
        r matches Ok(s) && s@ == curve_key_map_json(m),
        lists_map(sorted_listing(m), m),
        keys_ascending(sorted_listing(m)),
{
    let sorted = sort_by_key(entries, Ghost(m));
    proof {
        lemma_is_sorted_listing(pairs_view(sorted@), m);
    }
    let mut members: Vec<(String, String)> = Vec::new();
    let n = sorted.len();
    let mut i: usize = 0;
    while i < n
        invariant
            n == sorted@.len(),
            i <= n,
            members@.len() == i,
            forall|k: int|
                0 <= k < i ==> #[trigger] members@[k].0@ == sorted@[k].0@ && members@[k].1@
                    == json_string_literal(sorted@[k].1@),
        decreases n - i,
    {
        let value = json_quote_checked(sorted[i].1.as_str())?;
        let key = sorted[i].0.clone();
        let ghost before = members@;
        members.push((key, value));
        proof {
            assert forall|k: int| 0 <= k < i + 1 implies #[trigger] members@[k].0@ == sorted@[k].0@
                && members@[k].1@ == json_string_literal(sorted@[k].1@) by {
                if k < i {
                    assert(members@[k] == before[k]);
                }
            }
        }
        i = i + 1;
    }
    assert(pairs_view(members@) =~= quote_values(pairs_view(sorted@)));
    let inner = write_object(&members)?;
    let mut outer: Vec<(String, String)> = Vec::new();
    outer.push((String::from_str("curve25519"), inner));
    assert(pairs_view(outer@) =~= seq![
        ("curve25519"@, json_object(quote_values(sorted_listing(m)))),
    ]);
    write_object(&outer)
}


/// A map with no entries is written as `{"curve25519":{}}`: after the keys
/// are marked published, `one_time_keys()` and `fallback_key()` list none.
pub proof fn lemma_no_keys_json(m: Map<Seq<char>, Seq<char>>)
    requires
        m =~= Map::empty(),
    ensures
        curve_key_map_json(m) == json_object(seq![("curve25519"@, seq!['{', '}'])]),
{
    let e = Seq::<(Seq<char>, Seq<char>)>::empty();
    assert(m.dom() =~= Set::empty());
    assert(lists_map(e, m));
    lemma_is_sorted_listing(e, m);
    assert(quote_values(sorted_listing(m)) =~= e);
    assert(json_object(e) =~= seq!['{', '}']);
}

/// `{"curve25519":"<key>","ed25519":"<key>"}`.
pub open spec fn identity_keys_json(curve25519: Seq<char>, ed25519: Seq<char>) -> Seq<char> {
    json_object(
        seq![
            ("curve25519"@, json_string_literal(curve25519)),
            ("ed25519"@, json_string_literal(ed25519)),
        ],
    )
}

/// Writes the identity keys object.
pub fn write_identity_keys(curve25519: &str, ed25519: &str) -> (r: Result<String, VodozemacError>)
    ensures
        r matches Ok(s) && s@ == identity_keys_json(curve25519@, ed25519@),
{
    let mut members: Vec<(String, String)> = Vec::new();
    members.push((String::from_str("curve25519"), json_quote_checked(curve25519)?));
    members.push((String::from_str("ed25519"), json_quote_checked(ed25519)?));
    assert(pairs_view(members@) =~= seq![
        ("curve25519"@, json_string_literal(curve25519@)),
        ("ed25519"@, json_string_literal(ed25519@)),
    ]);
    write_object(&members)
}

/// `{"type":<0|1>,"body":"<base64>"}`: an encrypted Olm message and its
/// kind, 0 for a pre-key message and 1 for a normal one.
pub open spec fn olm_message_json(message_type: u8, body: Seq<char>) -> Seq<char> {
    json_object(
        seq![("type"@, decimal(message_type as nat)), ("body"@, json_string_literal(body))],
    )
}

/// Writes an encrypted Olm message object.
pub fn write_olm_message(message_type: u8, body: &str) -> (r: Result<String, VodozemacError>)
    ensures
        r matches Ok(s) && s@ == olm_message_json(message_type, body@),
{
    let mut members: Vec<(String, String)> = Vec::new();
    members.push((String::from_str("type"), json_number_checked(message_type as u32)?));
    members.push((String::from_str("body"), json_quote_checked(body)?));
    assert(pairs_view(members@) =~= seq![
        ("type"@, decimal(message_type as nat)),
        ("body"@, json_string_literal(body@)),
    ]);
    write_object(&members)
}

/// `{"plaintext":"<text>","messageIndex":<n>}`: a decrypted group message
/// and the ratchet index it was encrypted at.
pub open spec fn group_plaintext_json(plaintext: Seq<char>, message_index: u32) -> Seq<char> {
    json_object(
        seq![
            ("plaintext"@, json_string_literal(plaintext)),
            ("messageIndex"@, decimal(message_index as nat)),
        ],
    )
}

/// Writes a decrypted group message object.
pub fn write_group_plaintext(plaintext: &str, message_index: u32) -> (r: Result<String, VodozemacError>)
    ensures
        r matches Ok(s) && s@ == group_plaintext_json(plaintext@, message_index),
{
    let mut members: Vec<(String, String)> = Vec::new();
    members.push((String::from_str("plaintext"), json_quote_checked(plaintext)?));
    members.push((String::from_str("messageIndex"), json_number_checked(message_index)?));
    assert(pairs_view(members@) =~= seq![
        ("plaintext"@, json_string_literal(plaintext@)),
        ("messageIndex"@, decimal(message_index as nat)),
    ]);
    write_object(&members)
}

/// Texts that agree and start with the same prefix agree after it.
proof fn lemma_strip_prefix(a: Seq<char>, x: Seq<char>, y: Seq<char>)
    requires
        a + x == a + y,
    ensures
        x == y,
{
    assert(x =~= (a + x).subrange(a.len() as int, (a + x).len() as int));
    assert(y =~= (a + y).subrange(a.len() as int, (a + y).len() as int));
}

/// The members of an object, read from the front.
proof fn lemma_json_members_front(m: (Seq<char>, Seq<char>), ms: Seq<(Seq<char>, Seq<char>)>)
    ensures
        json_members(seq![m] + ms) == json_member(m) + (if ms.len() == 0 {
            Seq::<char>::empty()
        } else {
            seq![','] + json_members(ms)
        }),
    decreases ms.len(),
{
    let u = seq![m] + ms;
    if ms.len() == 0 {
        assert(u =~= seq![m]);
        assert(json_member(m) + Seq::<char>::empty() =~= json_member(m));
    } else if ms.len() == 1 {
        assert(u.drop_last() =~= seq![m]);
        assert(u.last() == ms[0]);
        assert(ms.drop_last() =~= Seq::<(Seq<char>, Seq<char>)>::empty());
        assert(json_members(ms) == json_member(ms[0]));
        assert(seq![m][0] == m);
        assert(json_members(seq![m]) == json_member(m));
        assert(json_members(u.drop_last()) == json_member(m));
        assert(json_members(u) =~= json_member(m) + (seq![','] + json_members(ms)));
    } else {
        assert(u.drop_last() =~= seq![m] + ms.drop_last());
        assert(u.last() == ms.last());
        lemma_json_members_front(m, ms.drop_last());
        assert(json_members(u) =~= json_member(m) + (seq![','] + json_members(ms)));
    }
}

/// A quoted listing, read from the front.
proof fn lemma_quote_values_front(l: Seq<(Seq<char>, Seq<char>)>)
    requires
        l.len() > 0,
    ensures
        quote_values(l) == seq![(l[0].0, json_string_literal(l[0].1))] + quote_values(l.drop_first()),
{
    assert(quote_values(l) =~= seq![(l[0].0, json_string_literal(l[0].1))] + quote_values(
        l.drop_first(),
    ));
}

/// A member whose value is a string, and what follows it, determine the
/// key, the value and what follows.
proof fn lemma_string_member_read(
    k1: Seq<char>,
    v1: Seq<char>,
    tail1: Seq<char>,
    k2: Seq<char>,
    v2: Seq<char>,
    tail2: Seq<char>,
)
    requires
        json_member((k1, json_string_literal(v1))) + tail1 == json_member((k2, json_string_literal(v2)))
            + tail2,
    ensures
        k1 == k2,
        v1 == v2,
        tail1 == tail2,
{
    let after1 = seq![':'] + (json_string_literal(v1) + tail1);
    let after2 = seq![':'] + (json_string_literal(v2) + tail2);
    assert(json_member((k1, json_string_literal(v1))) + tail1 =~= json_string_literal(k1) + after1);
    assert(json_member((k2, json_string_literal(v2))) + tail2 =~= json_string_literal(k2) + after2);
    lemma_json_string_literal_reads_back(k1, after1);
    lemma_json_string_literal_reads_back(k2, after2);
    lemma_strip_prefix(seq![':'], json_string_literal(v1) + tail1, json_string_literal(v2) + tail2);
    lemma_json_string_literal_reads_back(v1, tail1);
    lemma_json_string_literal_reads_back(v2, tail2);
}

/// The members of an object whose values are strings, followed by its
/// closing brace, determine those members.
#[verifier::spinoff_prover]
proof fn lemma_quoted_members_injective(
    l1: Seq<(Seq<char>, Seq<char>)>,
    l2: Seq<(Seq<char>, Seq<char>)>,
    t1: Seq<char>,
    t2: Seq<char>,
)
    requires
        json_members(quote_values(l1)) + t1 == json_members(quote_values(l2)) + t2,
        t1.len() > 0,
        t1[0] == '}',
        t2.len() > 0,
        t2[0] == '}',
    ensures
        l1 == l2,
        t1 == t2,
    decreases l1.len() + l2.len(),
{
    let e = Seq::<(Seq<char>, Seq<char>)>::empty();
    if l1.len() == 0 && l2.len() == 0 {
        assert(quote_values(l1) =~= e);
        assert(quote_values(l2) =~= e);
        assert(json_members(quote_values(l1)) + t1 =~= t1);
        assert(json_members(quote_values(l2)) + t2 =~= t2);
        assert(l1 =~= l2);
    } else if l1.len() == 0 || l2.len() == 0 {
        // One side starts with the closing brace, the other with a quote.
        let (la, ta, tb, lb) = if l1.len() == 0 {
            (l1, t1, t2, l2)
        } else {
            (l2, t2, t1, l1)
        };
        assert(quote_values(la) =~= e);
        assert(json_members(quote_values(la)) + ta =~= ta);
        lemma_quote_values_front(lb);
        let q0 = (lb[0].0, json_string_literal(lb[0].1));
        let qr = quote_values(lb.drop_first());
        lemma_json_members_front(q0, qr);
        let whole = json_members(quote_values(lb)) + tb;
        assert(whole[0] == json_string_literal(lb[0].0)[0]);
        assert(json_string_literal(lb[0].0)[0] == '"');
        assert(ta[0] == whole[0]);
        assert(false);
    } else {
        lemma_quote_values_front(l1);
        lemma_quote_values_front(l2);
        let (k1, v1, r1) = (l1[0].0, l1[0].1, l1.drop_first());
        let (k2, v2, r2) = (l2[0].0, l2[0].1, l2.drop_first());
        lemma_json_members_front((k1, json_string_literal(v1)), quote_values(r1));
        lemma_json_members_front((k2, json_string_literal(v2)), quote_values(r2));
        let tail1 = (if r1.len() == 0 {
            Seq::<char>::empty()
        } else {
            seq![','] + json_members(quote_values(r1))
        }) + t1;
        let tail2 = (if r2.len() == 0 {
            Seq::<char>::empty()
        } else {
            seq![','] + json_members(quote_values(r2))
        }) + t2;
        assert(quote_values(r1).len() == r1.len());
        assert(quote_values(r2).len() == r2.len());
        assert(json_members(quote_values(l1)) + t1 =~= json_member((k1, json_string_literal(v1))) + tail1);
        assert(json_members(quote_values(l2)) + t2 =~= json_member((k2, json_string_literal(v2))) + tail2);
        lemma_string_member_read(k1, v1, tail1, k2, v2, tail2);
        if r1.len() == 0 && r2.len() == 0 {
            assert(tail1 =~= t1);
            assert(tail2 =~= t2);
        } else if r1.len() == 0 || r2.len() == 0 {
            if r1.len() == 0 {
                assert(tail1 =~= t1);
                assert(tail2[0] == ',');
            } else {
                assert(tail2 =~= t2);
                assert(tail1[0] == ',');
            }
            assert(false);
        } else {
            assert(tail1 =~= seq![','] + (json_members(quote_values(r1)) + t1));
            assert(tail2 =~= seq![','] + (json_members(quote_values(r2)) + t2));
            lemma_strip_prefix(
                seq![','],
                json_members(quote_values(r1)) + t1,
                json_members(quote_values(r2)) + t2,
            );
            lemma_quoted_members_injective(r1, r2, t1, t2);
        }
        assert(l1 =~= seq![l1[0]] + r1);
        assert(l2 =~= seq![l2[0]] + r2);
    }
}

/// The JSON of a key map determines the map: two key maps written alike
/// are the same map, so every entry is written, once, with its own key.
pub proof fn lemma_curve_key_map_json_injective(m1: Map<Seq<char>, Seq<char>>, m2: Map<Seq<char>, Seq<char>>)
    requires
        lists_map(sorted_listing(m1), m1),
        lists_map(sorted_listing(m2), m2),
        curve_key_map_json(m1) == curve_key_map_json(m2),
    ensures
        m1 == m2,
{
    let l1 = sorted_listing(m1);
    let l2 = sorted_listing(m2);
    let pre = seq!['{'] + json_string_literal("curve25519"@) + seq![':', '{'];
    let close = seq!['}', '}'];
    lemma_json_members_front(("curve25519"@, json_object(quote_values(l1))), Seq::empty());
    lemma_json_members_front(("curve25519"@, json_object(quote_values(l2))), Seq::empty());
    assert(seq![("curve25519"@, json_object(quote_values(l1)))] + Seq::empty() =~= seq![
        ("curve25519"@, json_object(quote_values(l1))),
    ]);
    assert(seq![("curve25519"@, json_object(quote_values(l2)))] + Seq::empty() =~= seq![
        ("curve25519"@, json_object(quote_values(l2))),
    ]);
    assert(curve_key_map_json(m1) =~= pre + (json_members(quote_values(l1)) + close));
    assert(curve_key_map_json(m2) =~= pre + (json_members(quote_values(l2)) + close));
    lemma_strip_prefix(pre, json_members(quote_values(l1)) + close, json_members(quote_values(l2)) + close);
    lemma_quoted_members_injective(l1, l2, close, close);
    assert forall|k: Seq<char>| #[trigger] m1.dom().contains(k) implies m2.dom().contains(k) && m2[k]
        == m1[k] by {
        lemma_listing_covers(l1, m1, k);
        let i = choose|i: int| 0 <= i < l1.len() && l1[i].0 == k;
        assert(m2.contains_key(l2[i].0));
    }
    assert forall|k: Seq<char>| #[trigger] m2.dom().contains(k) implies m1.dom().contains(k) by {
        lemma_listing_covers(l2, m2, k);
        let i = choose|i: int| 0 <= i < l2.len() && l2[i].0 == k;
        assert(m1.contains_key(l1[i].0));
    }
    assert(m1.dom() =~= m2.dom());
    assert(m1 =~= m2);
}

/// The identity keys object determines both keys.
pub proof fn lemma_identity_keys_json_injective(c1: Seq<char>, e1: Seq<char>, c2: Seq<char>, e2: Seq<char>)
    requires
        identity_keys_json(c1, e1) == identity_keys_json(c2, e2),
    ensures
        c1 == c2,
        e1 == e2,
{
    let l1 = seq![("curve25519"@, c1), ("ed25519"@, e1)];
    let l2 = seq![("curve25519"@, c2), ("ed25519"@, e2)];
    assert(quote_values(l1) =~= seq![
        ("curve25519"@, json_string_literal(c1)),
        ("ed25519"@, json_string_literal(e1)),
    ]);
    assert(quote_values(l2) =~= seq![
        ("curve25519"@, json_string_literal(c2)),
        ("ed25519"@, json_string_literal(e2)),
    ]);
    let close = seq!['}'];
    assert(identity_keys_json(c1, e1) =~= seq!['{'] + (json_members(quote_values(l1)) + close));
    assert(identity_keys_json(c2, e2) =~= seq!['{'] + (json_members(quote_values(l2)) + close));
    lemma_strip_prefix(seq!['{'], json_members(quote_values(l1)) + close, json_members(quote_values(l2)) + close);
    lemma_quoted_members_injective(l1, l2, close, close);
    assert(l1[0].1 == l2[0].1 && l1[1].1 == l2[1].1);
}

/// The encrypt object of a given type determines its body: no two bodies
/// are written alike, so the whole body is written.
pub proof fn lemma_olm_message_json_determines_body(message_type: u8, b1: Seq<char>, b2: Seq<char>)
    requires
        olm_message_json(message_type, b1) == olm_message_json(message_type, b2),
    ensures
        b1 == b2,
{
    let d = decimal(message_type as nat);
    let ty = ("type"@, d);
    let pre = seq!['{'] + json_member(ty) + seq![','] + json_string_literal("body"@) + seq![':'];
    lemma_json_members_front(ty, seq![("body"@, json_string_literal(b1))]);
    lemma_json_members_front(ty, seq![("body"@, json_string_literal(b2))]);
    assert(seq![ty] + seq![("body"@, json_string_literal(b1))] =~= seq![ty, ("body"@, json_string_literal(b1))]);
    assert(seq![ty] + seq![("body"@, json_string_literal(b2))] =~= seq![ty, ("body"@, json_string_literal(b2))]);
    let e = Seq::<(Seq<char>, Seq<char>)>::empty();
    lemma_json_members_front(("body"@, json_string_literal(b1)), e);
    lemma_json_members_front(("body"@, json_string_literal(b2)), e);
    assert(seq![("body"@, json_string_literal(b1))] + e =~= seq![("body"@, json_string_literal(b1))]);
    assert(seq![("body"@, json_string_literal(b2))] + e =~= seq![("body"@, json_string_literal(b2))]);
    assert(olm_message_json(message_type, b1) =~= pre + (json_string_literal(b1) + seq!['}']));
    assert(olm_message_json(message_type, b2) =~= pre + (json_string_literal(b2) + seq!['}']));
    lemma_strip_prefix(pre, json_string_literal(b1) + seq!['}'], json_string_literal(b2) + seq!['}']);
    lemma_json_string_literal_reads_back(b1, seq!['}']);
    lemma_json_string_literal_reads_back(b2, seq!['}']);
}

/// The decrypted group message object determines its plaintext and its
/// message index: no two decryptions are written alike.
pub proof fn lemma_group_plaintext_json_determines_plaintext(p1: Seq<char>, i1: u32, p2: Seq<char>, i2: u32)
    requires
        group_plaintext_json(p1, i1) == group_plaintext_json(p2, i2),
    ensures
        p1 == p2,
        i1 == i2,
{
    let pre = seq!['{'] + json_string_literal("plaintext"@) + seq![':'];
    let rest1 = seq![','] + json_member(("messageIndex"@, decimal(i1 as nat))) + seq!['}'];
    let rest2 = seq![','] + json_member(("messageIndex"@, decimal(i2 as nat))) + seq!['}'];
    let a1 = ("plaintext"@, json_string_literal(p1));
    let a2 = ("plaintext"@, json_string_literal(p2));
    let n1 = ("messageIndex"@, decimal(i1 as nat));
    let n2 = ("messageIndex"@, decimal(i2 as nat));
    let e = Seq::<(Seq<char>, Seq<char>)>::empty();
    lemma_json_members_front(a1, seq![n1]);
    lemma_json_members_front(a2, seq![n2]);
    lemma_json_members_front(n1, e);
    lemma_json_members_front(n2, e);
    assert(seq![a1] + seq![n1] =~= seq![a1, n1]);
    assert(seq![a2] + seq![n2] =~= seq![a2, n2]);
    assert(seq![n1] + e =~= seq![n1]);
    assert(seq![n2] + e =~= seq![n2]);
    assert(group_plaintext_json(p1, i1) =~= pre + (json_string_literal(p1) + rest1));
    assert(group_plaintext_json(p2, i2) =~= pre + (json_string_literal(p2) + rest2));
    lemma_strip_prefix(pre, json_string_literal(p1) + rest1, json_string_literal(p2) + rest2);
    lemma_json_string_literal_reads_back(p1, rest1);
    lemma_json_string_literal_reads_back(p2, rest2);
    let mid = seq![','] + json_string_literal("messageIndex"@) + seq![':'];
    assert(rest1 =~= mid + (decimal(i1 as nat) + seq!['}']));
    assert(rest2 =~= mid + (decimal(i2 as nat) + seq!['}']));
    lemma_strip_prefix(mid, decimal(i1 as nat) + seq!['}'], decimal(i2 as nat) + seq!['}']);
    assert(decimal(i1 as nat) =~= (decimal(i1 as nat) + seq!['}']).drop_last());
    assert(decimal(i2 as nat) =~= (decimal(i2 as nat) + seq!['}']).drop_last());
    lemma_decimal_injective(i1 as nat, i2 as nat);
}

/// The number a string of decimal digits spells.
pub open spec fn digits_value(s: Seq<char>) -> nat
    decreases s.len(),
{
    if s.len() == 0 {
        0
    } else {
        digits_value(s.drop_last()) * 10 + match hex_value(s.last()) {
            Some(d) => d,
            None => 0,
        }
    }
}

/// The decimal spelling of a number reads back as that number.
pub proof fn lemma_decimal_reads_back(n: nat)
    ensures
        digits_value(decimal(n)) == n,
    decreases n,
{
    if n < 10 {
        lemma_hex_digit_value(n);
        assert(hex_digit(n) == digit_char(n));
        assert(decimal(n).drop_last() =~= Seq::<char>::empty());
        assert(decimal(n).last() == digit_char(n));
        assert(digits_value(Seq::<char>::empty()) == 0);
    } else {
        lemma_decimal_reads_back(n / 10);
        let d = n % 10;
        lemma_hex_digit_value(d);
        assert(hex_digit(d) == digit_char(d));
        assert(decimal(n).drop_last() =~= decimal(n / 10));
        assert(decimal(n).last() == digit_char(d));
        assert(digits_value(decimal(n)) == digits_value(decimal(n / 10)) * 10 + d);
        assert((n / 10) * 10 + n % 10 == n) by (nonlinear_arith);
    }
}

/// Different numbers have different decimal spellings.
pub proof fn lemma_decimal_injective(a: nat, b: nat)
    requires
        decimal(a) == decimal(b),
    ensures
        a == b,
{
    lemma_decimal_reads_back(a);
    lemma_decimal_reads_back(b);
}

/// The encrypt object determines its message type (0 for a pre-key
/// message, 1 for a normal one, or any other one-digit type): no two types
/// are written alike.
pub proof fn lemma_olm_message_json_determines_type(t1: u8, b1: Seq<char>, t2: u8, b2: Seq<char>)
    requires
        t1 < 10,
        t2 < 10,
        olm_message_json(t1, b1) == olm_message_json(t2, b2),
    ensures
        t1 == t2,
{
    let pre = seq!['{'] + json_string_literal("type"@) + seq![':'];
    let ty1 = ("type"@, decimal(t1 as nat));
    let ty2 = ("type"@, decimal(t2 as nat));
    let bo1 = ("body"@, json_string_literal(b1));
    let bo2 = ("body"@, json_string_literal(b2));
    let e = Seq::<(Seq<char>, Seq<char>)>::empty();
    lemma_json_members_front(ty1, seq![bo1]);
    lemma_json_members_front(ty2, seq![bo2]);
    lemma_json_members_front(bo1, e);
    lemma_json_members_front(bo2, e);
    assert(seq![ty1] + seq![bo1] =~= seq![ty1, bo1]);
    assert(seq![ty2] + seq![bo2] =~= seq![ty2, bo2]);
    assert(seq![bo1] + e =~= seq![bo1]);
    assert(seq![bo2] + e =~= seq![bo2]);
    let r1 = seq![','] + json_member(bo1) + seq!['}'];
    let r2 = seq![','] + json_member(bo2) + seq!['}'];
    assert(olm_message_json(t1, b1) =~= pre + (decimal(t1 as nat) + r1));
    assert(olm_message_json(t2, b2) =~= pre + (decimal(t2 as nat) + r2));
    lemma_strip_prefix(pre, decimal(t1 as nat) + r1, decimal(t2 as nat) + r2);
    assert(decimal(t1 as nat) == seq![digit_char(t1 as nat)]);
    assert(decimal(t2 as nat) == seq![digit_char(t2 as nat)]);
    assert((decimal(t1 as nat) + r1)[0] == digit_char(t1 as nat));
    assert((decimal(t2 as nat) + r2)[0] == digit_char(t2 as nat));
    lemma_hex_digit_value(t1 as nat);
    lemma_hex_digit_value(t2 as nat);
}

} // verus!
