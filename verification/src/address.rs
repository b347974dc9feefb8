//! On-chain addresses, their hexadecimal literals, and the growing book of
//! resolved address names.

use vstd::prelude::*;
use vstd::string::StrSliceExecFns;
use vstd::string::StringExecFns;

verus! {

/// The value of one hexadecimal digit character, or 255 when the character
/// is no hexadecimal digit.
pub open spec fn hex_value(c: char) -> u8 {
    if c == '0' {
        0
    } else if c == '1' {
        1
    } else if c == '2' {
        2
    } else if c == '3' {
        3
    } else if c == '4' {
        4
    } else if c == '5' {
        5
    } else if c == '6' {
        6
    } else if c == '7' {
        7
    } else if c == '8' {
        8
    } else if c == '9' {
        9
    } else if c == 'a' || c == 'A' {
        10
    } else if c == 'b' || c == 'B' {
        11
    } else if c == 'c' || c == 'C' {
        12
    } else if c == 'd' || c == 'D' {
        13
    } else if c == 'e' || c == 'E' {
        14
    } else if c == 'f' || c == 'F' {
        15
    } else {
        255
    }
}

pub open spec fn is_hex_digit(c: char) -> bool {
    hex_value(c) < 16
}

/// The lower-case hexadecimal digit character for a value below 16.
pub open spec fn hex_char_of(n: u8) -> char
    recommends
        n < 16,
{
    if n == 0 {
        '0'
    } else if n == 1 {
        '1'
    } else if n == 2 {
        '2'
    } else if n == 3 {
        '3'
    } else if n == 4 {
        '4'
    } else if n == 5 {
        '5'
    } else if n == 6 {
        '6'
    } else if n == 7 {
        '7'
    } else if n == 8 {
        '8'
    } else if n == 9 {
        '9'
    } else if n == 10 {
        'a'
    } else if n == 11 {
        'b'
    } else if n == 12 {
        'c'
    } else if n == 13 {
        'd'
    } else if n == 14 {
        'e'
    } else {
        'f'
    }
}

/// Two lower-case digits per byte, most significant nibble first.
pub open spec fn hex_chars_of(bytes: Seq<u8>) -> Seq<char> {
    Seq::new(
        bytes.len() * 2,
        |i: int|
            if i % 2 == 0 {
                hex_char_of((bytes[i / 2] / 16) as u8)
            } else {
                hex_char_of((bytes[i / 2] % 16) as u8)
            },
    )
}

/// The canonical form an address is rendered in: `0x` followed by the
/// digits of every byte.
pub open spec fn address_literal_of(bytes: Seq<u8>) -> Seq<char> {
    "0x"@ + hex_chars_of(bytes)
}

/// An address literal may carry the `0x` prefix or not.
pub open spec fn strip_hex_prefix(s: Seq<char>) -> Seq<char> {
    if s.len() >= 2 && s[0] == '0' && s[1] == 'x' {
        s.skip(2)
    } else {
        s
    }
}

/// A parseable address literal: after the optional prefix, between 1 and 64
/// hexadecimal digits.
pub open spec fn is_address_literal(s: Seq<char>) -> bool {
    let t = strip_hex_prefix(s);
    &&& 1 <= t.len() <= 64
    &&& forall|i: int| 0 <= i < t.len() ==> is_hex_digit(#[trigger] t[i])
}

/// Digits extended on the left with `'0'` to the full 64-digit width.
pub open spec fn padded_digits(t: Seq<char>) -> Seq<char>
    recommends
        t.len() <= 64,
{
    Seq::new(
        64,
        |i: int|
            if i < 64 - t.len() {
                '0'
            } else {
                t[i - (64 - t.len())]
            },
    )
}

/// The 32 bytes an address literal denotes, shorter literals being
/// left-padded with zero digits.
pub open spec fn address_bytes_of(s: Seq<char>) -> Seq<u8> {
    let p = padded_digits(strip_hex_prefix(s));
    Seq::new(32, |j: int| (16 * hex_value(p[2 * j]) + hex_value(p[2 * j + 1])) as u8)
}

/// The value of a hexadecimal digit character, 255 when it is none.
fn hex_value_of(c: char) -> (v: u8)
    ensures
        v == hex_value(c),
{
    match c {
        '0' => 0,
        '1' => 1,
        '2' => 2,
        '3' => 3,
        '4' => 4,
        '5' => 5,
        '6' => 6,
        '7' => 7,
        '8' => 8,
        '9' => 9,
        'a' | 'A' => 10,
        'b' | 'B' => 11,
        'c' | 'C' => 12,
        'd' | 'D' => 13,
        'e' | 'E' => 14,
        'f' | 'F' => 15,
        _ => 255,
    }
}

/// Appends the lower-case digit character of a value below 16.
fn push_hex_char(out: &mut String, n: u8)
    requires
        n < 16,
    ensures
        final(out)@ == old(out)@.push(hex_char_of(n)),
{
    match n {
        0 => {
            proof {
                reveal_strlit("0");
            }
            out.append("0");
            proof {
                assert(out@ =~= old(out)@.push(hex_char_of(n)));
            }
        },
        1 => {
            proof {
                reveal_strlit("1");
            }
            out.append("1");
            proof {
                assert(out@ =~= old(out)@.push(hex_char_of(n)));
            }
        },
        2 => {
            proof {
                reveal_strlit("2");
            }
            out.append("2");
            proof {
                assert(out@ =~= old(out)@.push(hex_char_of(n)));
            }
        },
        3 => {
            proof {
                reveal_strlit("3");
            }
            out.append("3");
            proof {
                assert(out@ =~= old(out)@.push(hex_char_of(n)));
            }
        },
        4 => {
            proof {
                reveal_strlit("4");
            }
            out.append("4");
            proof {
                assert(out@ =~= old(out)@.push(hex_char_of(n)));
            }
        },
        5 => {
            proof {
                reveal_strlit("5");
            }
            out.append("5");
            proof {
                assert(out@ =~= old(out)@.push(hex_char_of(n)));
            }
        },
        6 => {
            proof {
                reveal_strlit("6");
            }
            out.append("6");
            proof {
                assert(out@ =~= old(out)@.push(hex_char_of(n)));
            }
        },
        7 => {
            proof {
                reveal_strlit("7");
            }
            out.append("7");
            proof {
                assert(out@ =~= old(out)@.push(hex_char_of(n)));
            }
        },
        8 => {
            proof {
                reveal_strlit("8");
            }
            out.append("8");
            proof {
                assert(out@ =~= old(out)@.push(hex_char_of(n)));
            }
        },
        9 => {
            proof {
                reveal_strlit("9");
            }
            out.append("9");
            proof {
                assert(out@ =~= old(out)@.push(hex_char_of(n)));
            }
        },
        10 => {
            proof {
                reveal_strlit("a");
            }
            out.append("a");
            proof {
                assert(out@ =~= old(out)@.push(hex_char_of(n)));
            }
        },
        11 => {
            proof {
                reveal_strlit("b");
            }
            out.append("b");
            proof {
                assert(out@ =~= old(out)@.push(hex_char_of(n)));
            }
        },
        12 => {
            proof {
                reveal_strlit("c");
            }
            out.append("c");
            proof {
                assert(out@ =~= old(out)@.push(hex_char_of(n)));
            }
        },
        13 => {
            proof {
                reveal_strlit("d");
            }
            out.append("d");
            proof {
                assert(out@ =~= old(out)@.push(hex_char_of(n)));
            }
        },
        14 => {
            proof {
                reveal_strlit("e");
            }
            out.append("e");
            proof {
                assert(out@ =~= old(out)@.push(hex_char_of(n)));
            }
        },
        _ => {
            proof {
                reveal_strlit("f");
            }
            out.append("f");
            proof {
                assert(out@ =~= old(out)@.push(hex_char_of(n)));
            }
        },
    }
}

/// A resolved on-chain address: 32 bytes, rendered as a hexadecimal literal.
#[derive(Debug, PartialEq, Eq)]
pub struct ChainAddress {
    bytes: Vec<u8>,
}

impl View for ChainAddress {
    type V = Seq<u8>;

    closed spec fn view(&self) -> Seq<u8> {
        self.bytes@
    }
}

impl Clone for ChainAddress {
    fn clone(&self) -> (r: Self)
        ensures
            r@ == self@,
    {
        proof {
            use_type_invariant(self);
        }
        let bytes = self.bytes.clone();
        proof {
            assert(bytes@ =~= self.bytes@);
        }
        ChainAddress { bytes }
    }
}

impl ChainAddress {
    /// Every address holds exactly 32 bytes.
    #[verifier::type_invariant]
    pub closed spec fn wf(self) -> bool {
        self.bytes@.len() == 32
    }

    /// Parses a hexadecimal address literal: an optional `0x` prefix and
    /// between 1 and 64 digits, shorter literals denoting left-padded
    /// values. Returns `None` exactly on malformed input.
    pub fn from_hex(s: &str) -> (r: Option<ChainAddress>)
        ensures
            r is Some <==> is_address_literal(s@),
            r matches Some(a) ==> a@ == address_bytes_of(s@),
    {
        let n = s.unicode_len();
        let start: usize = if n >= 2 && s.get_char(0) == '0' && s.get_char(1) == 'x' {
            2
        } else {
            0
        };
        proof {
            assert(strip_hex_prefix(s@) =~= s@.skip(start as int));
        }
        let digits = n - start;
        if digits == 0 || digits > 64 {
            return None;
        }
        let ghost t = strip_hex_prefix(s@);
        let ghost p = padded_digits(t);
        let pad: usize = 64 - digits;
        let mut vals: Vec<u8> = Vec::new();
        let mut i: usize = 0;
        while i < pad
            invariant
                i <= pad,
                digits == t.len(),
                1 <= digits <= 64,
                pad == 64 - t.len(),
                p == padded_digits(t),
                vals@.len() == i,
                forall|k: int| 0 <= k < i ==> #[trigger] vals@[k] == hex_value(p[k]),
                forall|k: int| 0 <= k < i ==> #[trigger] vals@[k] < 16,
            decreases pad - i,
        {
            proof {
                assert(p[i as int] == '0');
            }
            vals.push(0);
            i += 1;
        }
        let mut k: usize = 0;
        while k < digits
            invariant
                k <= digits,
                digits == t.len(),
                1 <= digits <= 64,
                pad == 64 - t.len(),
                start + digits == s@.len(),
                start + digits == n,
                t == s@.skip(start as int),
                t == strip_hex_prefix(s@),
                p == padded_digits(t),
                vals@.len() == pad + k,
                forall|k2: int| 0 <= k2 < pad + k ==> #[trigger] vals@[k2] == hex_value(p[k2]),
                forall|k2: int| 0 <= k2 < pad + k ==> #[trigger] vals@[k2] < 16,
                forall|k2: int| 0 <= k2 < k ==> is_hex_digit(#[trigger] t[k2]),
            decreases digits - k,
        {
            let c = s.get_char(start + k);
            proof {
                assert(c == t[k as int]);
                assert(p[(pad + k) as int] == t[k as int]);
            }
            let v = hex_value_of(c);
            if v == 255 {
                proof {
                    assert(!is_hex_digit(t[k as int]));
                    assert(!is_address_literal(s@));
                }
                return None;
            }
            vals.push(v);
            proof {
                assert(vals@[(pad + k) as int] == hex_value(p[(pad + k) as int]));
                assert(vals@[(pad + k) as int] < 16);
            }
            k += 1;
        }
        proof {
            assert(is_address_literal(s@));
        }
        let mut bytes: Vec<u8> = Vec::new();
        let mut j: usize = 0;
        while j < 32
            invariant
                j <= 32,
                t == strip_hex_prefix(s@),
                p == padded_digits(t),
                vals@.len() == 64,
                forall|k2: int| 0 <= k2 < 64 ==> #[trigger] vals@[k2] == hex_value(p[k2]),
                forall|k2: int| 0 <= k2 < 64 ==> #[trigger] vals@[k2] < 16,
                bytes@.len() == j,
                forall|j2: int| 0 <= j2 < j ==> #[trigger] bytes@[j2] == (16 * hex_value(p[2 * j2])
                    + hex_value(p[2 * j2 + 1])) as u8,
            decreases 32 - j,
        {
            let hi = vals[2 * j];
            let lo = vals[2 * j + 1];
            bytes.push(16 * hi + lo);
            j += 1;
        }
        proof {
            assert(bytes@ =~= address_bytes_of(s@));
        }
        Some(ChainAddress { bytes })
    }

    /// Renders the address in canonical form: `0x` followed by all 64
    /// lower-case digits.
    pub fn to_hex(&self) -> (r: String)
        ensures
            r@ == address_literal_of(self@),
    {
        proof {
            use_type_invariant(self);
        }
        let mut r = String::new();
        r.append("0x");
        proof {
            assert(r@ =~= "0x"@);
        }
        let mut j: usize = 0;
        while j < 32
            invariant
                j <= 32,
                self@.len() == 32,
                r@ == "0x"@ + hex_chars_of(self@.take(j as int)),
            decreases 32 - j,
        {
            let b = self.bytes[j];
            push_hex_char(&mut r, b / 16);
            push_hex_char(&mut r, b % 16);
            proof {
                assert(hex_chars_of(self@.take(j + 1)) =~= hex_chars_of(self@.take(j as int)).push(
                    hex_char_of((b / 16) as u8),
                ).push(hex_char_of((b % 16) as u8)));
                assert(r@ =~= "0x"@ + hex_chars_of(self@.take(j + 1)));
            }
            j += 1;
        }
        proof {
            assert(self@.take(32) =~= self@);
        }
        r
    }
}

/// A parsed digit has the value the digit character was chosen for.
pub proof fn lemma_hex_digit_round_trip(n: u8)
    requires
        n < 16,
    ensures
        hex_value(hex_char_of(n)) == n,
{
}

/// Law: rendering an address and parsing the rendering yields the address
/// back, for every address value.
#[verifier::rlimit(50)]
pub proof fn lemma_address_literal_round_trip(bytes: Seq<u8>)
    requires
        bytes.len() == 32,
    ensures
        is_address_literal(address_literal_of(bytes)),
        address_bytes_of(address_literal_of(bytes)) =~= bytes,
{
    reveal_strlit("0x");
    let s = address_literal_of(bytes);
    let t = strip_hex_prefix(s);
    assert(t =~= hex_chars_of(bytes));
    assert forall|i: int| 0 <= i < t.len() implies is_hex_digit(#[trigger] t[i]) by {
        if i % 2 == 0 {
            lemma_hex_digit_round_trip((bytes[i / 2] / 16) as u8);
        } else {
            lemma_hex_digit_round_trip((bytes[i / 2] % 16) as u8);
        }
    }
    let p = padded_digits(t);
    assert(p =~= t);
    assert forall|j: int| 0 <= j < 32 implies address_bytes_of(s)[j] == bytes[j] by {
        lemma_hex_digit_round_trip((bytes[j] / 16) as u8);
        lemma_hex_digit_round_trip((bytes[j] % 16) as u8);
        assert(p[2 * j] == hex_char_of((bytes[j] / 16) as u8));
        assert(p[2 * j + 1] == hex_char_of((bytes[j] % 16) as u8));
        assert(16 * (bytes[j] / 16) + bytes[j] % 16 == bytes[j]);
    }
}

/// The growing mapping from symbolic address name to resolved address:
/// seeded from previously deployed entries, appended to as packages deploy.
#[derive(Debug)]
pub struct AddressBook {
    entries: Vec<(String, ChainAddress)>,
}

impl View for AddressBook {
    type V = Map<Seq<char>, Seq<u8>>;

    closed spec fn view(&self) -> Map<Seq<char>, Seq<u8>> {
        map_of_entries(self.entries@)
    }
}

impl AddressBook {
    /// Names are pairwise distinct, so each name denotes one address.
    pub closed spec fn wf(&self) -> bool {
        forall|i: int, j: int|
            0 <= i < j < self.entries@.len() ==> (#[trigger] self.entries@[i]).0@ != (
            #[trigger] self.entries@[j]).0@
    }

    /// An empty book.
    pub fn new() -> (r: AddressBook)
        ensures
            r.wf(),
            r@ == Map::<Seq<char>, Seq<u8>>::empty(),
    {
        let r = AddressBook { entries: Vec::new() };
        proof {
            assert(r@ =~= Map::<Seq<char>, Seq<u8>>::empty());
        }
        r
    }

    /// Whether the name is already resolved.
    pub fn contains_name(&self, name: &String) -> (r: bool)
        ensures
            r == self@.dom().contains(name@),
    {
        let n = self.entries.len();
        let mut i: usize = 0;
        while i < n
            invariant
                i <= n,
                n == self.entries@.len(),
                forall|k: int| 0 <= k < i ==> (#[trigger] self.entries@[k]).0@ != name@,
            decreases n - i,
        {
            if self.entries[i].0.eq(name) {
                proof {
                    assert(self.entries@[i as int].0@ == name@);
                }
                return true;
            }
            i += 1;
        }
        false
    }

    /// The address a name resolves to, if any.
    pub fn get(&self, name: &String) -> (r: Option<&ChainAddress>)
        requires
            self.wf(),
        ensures
            r is Some <==> self@.dom().contains(name@),
            r matches Some(a) ==> a@ == self@[name@],
    {
        let n = self.entries.len();
        let mut i: usize = 0;
        while i < n
            invariant
                i <= n,
                self.wf(),
                n == self.entries@.len(),
                forall|k: int| 0 <= k < i ==> (#[trigger] self.entries@[k]).0@ != name@,
            decreases n - i,
        {
            if self.entries[i].0.eq(name) {
                proof {
                    assert(self.entries@[i as int].0@ == name@);
                    let w = choose|w: int|
                        0 <= w < self.entries@.len() && (#[trigger] self.entries@[w]).0@ == name@;
                    assert(w == i);
                }
                return Some(&self.entries[i].1);
            }
            i += 1;
        }
        None
    }

    /// Binds a name to an address, replacing any earlier binding.
    pub fn insert(&mut self, name: String, addr: ChainAddress)
        requires
            old(self).wf(),
        ensures
            final(self).wf(),
            final(self)@ == old(self)@.insert(name@, addr@),
    {
        let n = self.entries.len();
        let mut i: usize = 0;
        while i < n
            invariant
                i <= n,
                self.wf(),
                *self == *old(self),
                n == self.entries@.len(),
                forall|k: int| 0 <= k < i ==> (#[trigger] self.entries@[k]).0@ != name@,
            decreases n - i,
        {
            if self.entries[i].0.eq(&name) {
                proof {
                    assert(self.entries@[i as int].0@ == name@);
                }
                self.entries.set(i, (name, addr));
                proof {
                    lemma_view_after_bind(old(self).entries@, self.entries@, i as int, old(self)@, self@);
                }
                return ;
            }
            i += 1;
        }
        self.entries.push((name, addr));
        proof {
            lemma_view_after_bind(
                old(self).entries@,
                self.entries@,
                old(self).entries@.len() as int,
                old(self)@,
                self@,
            );
        }
    }
}

/// After writing a binding at position `at` (either replacing the one entry
/// carrying the same name, or appending a fresh one), the book's view is the
/// old view with that binding inserted, and names stay pairwise distinct.
proof fn lemma_view_after_bind(
    olds: Seq<(String, ChainAddress)>,
    news: Seq<(String, ChainAddress)>,
    at: int,
    oldv: Map<Seq<char>, Seq<u8>>,
    newv: Map<Seq<char>, Seq<u8>>,
)
    requires
        0 <= at < news.len(),
        news.len() == if at == olds.len() {
            olds.len() + 1
        } else {
            olds.len()
        },
        forall|k: int| 0 <= k < olds.len() && k != at ==> olds[k] == #[trigger] news[k],
        forall|i: int, j: int| 0 <= i < j < olds.len() ==> (#[trigger] olds[i]).0@ != (#[trigger] olds[j]).0@,
        forall|k: int| 0 <= k < olds.len() && k != at ==> (#[trigger] olds[k]).0@ != news[at].0@,
        at < olds.len() ==> olds[at].0@ == news[at].0@,
        oldv == map_of_entries(olds),
        newv == map_of_entries(news),
    ensures
        newv == oldv.insert(news[at].0@, news[at].1@),
        forall|i: int, j: int| 0 <= i < j < news.len() ==> (#[trigger] news[i]).0@ != (#[trigger] news[j]).0@,
{
    let name = news[at].0@;
    assert forall|i: int, j: int| 0 <= i < j < news.len() implies (#[trigger] news[i]).0@ != (
    #[trigger] news[j]).0@ by {
        if i != at && j != at {
            assert(olds[i] == news[i]);
            assert(olds[j] == news[j]);
        }
    }
    assert(newv =~= oldv.insert(name, news[at].1@)) by {
        assert forall|m: Seq<char>| #[trigger]
            newv.dom().contains(m) <==> oldv.insert(name, news[at].1@).dom().contains(m) by {
            if m == name {
                assert(news[at].0@ == m);
                assert(newv.dom().contains(m));
            } else {
                if newv.dom().contains(m) {
                    let w = choose|w: int| 0 <= w < news.len() && (#[trigger] news[w]).0@ == m;
                    assert(w != at);
                    assert(olds[w].0@ == m);
                }
                if oldv.dom().contains(m) {
                    let w = choose|w: int| 0 <= w < olds.len() && (#[trigger] olds[w]).0@ == m;
                    assert(w != at);
                    assert(news[w].0@ == m);
                }
            }
        }
        assert forall|m: Seq<char>| newv.dom().contains(m) implies #[trigger] newv[m] == oldv.insert(
            name,
            news[at].1@,
        )[m] by {
            let w = choose|w: int| 0 <= w < news.len() && (#[trigger] news[w]).0@ == m;
            if m == name {
                assert(w == at);
            } else {
                assert(w != at);
                assert(olds[w].0@ == m);
                let w2 = choose|w2: int| 0 <= w2 < olds.len() && (#[trigger] olds[w2]).0@ == m;
                assert(w2 != at);
                assert(news[w2].0@ == m);
                assert(w2 == w);
            }
        }
    }
}

/// The mapping a sequence of bindings denotes; the helper the book's view is
/// stated with.
pub open spec fn map_of_entries(entries: Seq<(String, ChainAddress)>) -> Map<Seq<char>, Seq<u8>> {
    Map::new(
        |n: Seq<char>| exists|i: int| 0 <= i < entries.len() && (#[trigger] entries[i]).0@ == n,
        |n: Seq<char>|
            {
                let i = choose|i: int| 0 <= i < entries.len() && (#[trigger] entries[i]).0@ == n;
                entries[i].1@
            },
    )
}

} // verus!
