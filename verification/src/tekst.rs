//! Text as sequences of characters: comparison, splitting, trimming and the
//! spelling of numbers.
use vstd::arithmetic::div_mod::lemma_div_denominator;
use vstd::arithmetic::power::{lemma_pow0, lemma_pow1, lemma_pow_positive, pow};
use vstd::prelude::*;
use vstd::string::*;

verus! {

/// `String::push`: appends one character and changes nothing else.
pub assume_specification[ String::push ](s: &mut String, c: char)
    ensures
        final(s)@ == old(s)@.push(c),
;

/// The contents of each string, in order.
pub open spec fn tekster(v: Seq<String>) -> Seq<Seq<char>> {
    v.map_values(|s: String| s@)
}

/// The contents of an optional string.
pub open spec fn valgfri(v: Option<String>) -> Option<Seq<char>> {
    match v {
        Some(s) => Some(s@),
        None => None,
    }
}

/// The characters of a string as a vector.
pub fn tegn(s: &str) -> (r: Vec<char>)
    ensures
        r@ == s@,
{
    let mut ut: Vec<char> = Vec::new();
    for c in it: s.chars()
        invariant
            ut@ == it.seq().take(it.index()),
            it.seq() == s@,
    {
        ut.push(c);
    }
    ut
}

/// The string that spells `v[fra..til]`.
pub fn utsnitt(v: &Vec<char>, fra: usize, til: usize) -> (r: String)
    requires
        fra <= til <= v@.len(),
    ensures
        r@ == v@.subrange(fra as int, til as int),
{
    let mut ut = String::new();
    let mut i: usize = fra;
    while i < til
        invariant
            fra <= i <= til <= v@.len(),
            ut@ == v@.subrange(fra as int, i as int),
        decreases til - i,
    {
        ut.push(v[i]);
        i += 1;
    }
    ut
}

/// Whether two strings spell the same text.
pub fn lik(a: &str, b: &str) -> (r: bool)
    ensures
        r == (a@ == b@),
{
    a.to_owned() == b.to_owned()
}

/// Whether `s` begins with `p`.
pub open spec fn har_prefiks(s: Seq<char>, p: Seq<char>) -> bool {
    p.len() <= s.len() && s.take(p.len() as int) == p
}

/// Whether `s` ends with `p`.
pub open spec fn har_suffiks(s: Seq<char>, p: Seq<char>) -> bool {
    p.len() <= s.len() && s.skip(s.len() - p.len()) == p
}

/// Whether `p` occurs in `s` from position `i` on.
pub open spec fn forekommer_fra(s: Seq<char>, p: Seq<char>, i: int) -> bool {
    0 <= i && i + p.len() <= s.len() && s.subrange(i, i + p.len()) == p
}

/// Whether `p` occurs anywhere in `s`.
pub open spec fn inneholder_tekst(s: Seq<char>, p: Seq<char>) -> bool {
    exists|i: int| forekommer_fra(s, p, i)
}

/// Whether the characters of `p` stand in `s` from position `i` on.
fn staar_ved(s: &Vec<char>, p: &Vec<char>, i: usize) -> (r: bool)
    requires
        i + p@.len() <= s@.len(),
    ensures
        r == (s@.subrange(i as int, i + p@.len()) == p@),
{
    let n: usize = s.len();
    let mut j: usize = 0;
    while j < p.len()
        invariant
            j <= p@.len(),
            n == s@.len(),
            i + p@.len() <= n,
            forall|k: int| 0 <= k < j ==> s@[i + k] == p@[k],
        decreases p@.len() - j,
    {
        if s[i + j] != p[j] {
            assert(s@.subrange(i as int, i + p@.len())[j as int] != p@[j as int]);
            return false;
        }
        j += 1;
    }
    assert(s@.subrange(i as int, i + p@.len()) =~= p@);
    true
}

/// Whether `s` begins with `p`.
pub fn starter_med(s: &str, p: &str) -> (r: bool)
    ensures
        r == har_prefiks(s@, p@),
{
    let sv = tegn(s);
    let pv = tegn(p);
    if pv.len() > sv.len() {
        return false;
    }
    assert(s@.subrange(0, p@.len() as int) == s@.take(p@.len() as int));
    staar_ved(&sv, &pv, 0)
}

/// Whether `s` ends with `p`.
pub fn slutter_med(s: &str, p: &str) -> (r: bool)
    ensures
        r == har_suffiks(s@, p@),
{
    let sv = tegn(s);
    let pv = tegn(p);
    if pv.len() > sv.len() {
        return false;
    }
    let fra: usize = sv.len() - pv.len();
    assert(s@.subrange(fra as int, fra + p@.len()) == s@.skip(fra as int));
    staar_ved(&sv, &pv, fra)
}

/// Whether `p` occurs in `s` from position `i` on, and from none before it.
pub open spec fn forekommer_forst(s: Seq<char>, p: Seq<char>, i: int) -> bool {
    forekommer_fra(s, p, i) && forall|j: int| 0 <= j < i ==> !forekommer_fra(s, p, j)
}

/// The first position at which `p` occurs in `s`, if it does.
pub open spec fn forste_sted(s: Seq<char>, p: Seq<char>) -> Option<int> {
    if inneholder_tekst(s, p) {
        Some(choose|i: int| forekommer_forst(s, p, i))
    } else {
        None
    }
}

/// Finds the first position, counted in characters, at which `p` occurs.
pub fn finn(s: &Vec<char>, p: &Vec<char>) -> (r: Option<usize>)
    ensures
        match r {
            Some(i) => forekommer_fra(s@, p@, i as int) && (forall|j: int|
                0 <= j < i ==> !forekommer_fra(s@, p@, j)) && forste_sted(s@, p@) == Some(i as int),
            None => !inneholder_tekst(s@, p@) && forste_sted(s@, p@) is None,
        },
{
    if p.len() > s.len() {
        return None;
    }
    let siste: usize = s.len() - p.len();
    let mut i: usize = 0;
    while i <= siste
        invariant
            siste + p@.len() == s@.len(),
            i <= siste + 1,
            forall|j: int| 0 <= j < i ==> !forekommer_fra(s@, p@, j),
        decreases siste + 1 - i,
    {
        if staar_ved(s, p, i) {
            assert(forekommer_fra(s@, p@, i as int));
            proof {
                assert(forekommer_forst(s@, p@, i as int));
                let k = forste_sted(s@, p@)->0;
                assert(forekommer_forst(s@, p@, k));
                assert(k == i as int);
            }
            return Some(i);
        }
        if i == siste {
            return None;
        }
        i += 1;
    }
    None
}

/// Whether `p` occurs anywhere in `s`.
pub fn inneholder(s: &str, p: &str) -> (r: bool)
    ensures
        r == inneholder_tekst(s@, p@),
{
    finn(&tegn(s), &tegn(p)).is_some()
}

/// Whether `c` is among `skiller`.
pub fn er_blant(c: char, skiller: &[char]) -> (r: bool)
    ensures
        r == skiller@.contains(c),
{
    let mut i: usize = 0;
    while i < skiller.len()
        invariant
            i <= skiller@.len(),
            forall|k: int| 0 <= k < i ==> skiller@[k] != c,
        decreases skiller@.len() - i,
    {
        if skiller[i] == c {
            assert(skiller@[i as int] == c);
            return true;
        }
        i += 1;
    }
    false
}

/// The pieces of `s` between the characters of `skiller`; always at least one piece,
/// and one more than there are separators in `s`.
pub open spec fn splittet(s: Seq<char>, skiller: Seq<char>) -> Seq<Seq<char>>
    decreases s.len(),
{
    if s.len() == 0 {
        seq![Seq::<char>::empty()]
    } else {
        let foran = splittet(s.drop_last(), skiller);
        if skiller.contains(s.last()) {
            foran.push(Seq::empty())
        } else {
            foran.drop_last().push(foran.last().push(s.last()))
        }
    }
}

/// Splits `s` at each of the characters in `skiller`.
pub fn splitt(s: &str, skiller: &[char]) -> (r: Vec<String>)
    ensures
        tekster(r@) == splittet(s@, skiller@),
{
    let v = tegn(s);
    let mut ut: Vec<String> = Vec::new();
    let mut naa = String::new();
    let mut i: usize = 0;
    assert(s@.take(0) =~= Seq::<char>::empty());
    assert(tekster(ut@).push(naa@) =~= splittet(s@.take(0), skiller@));
    while i < v.len()
        invariant
            v@ == s@,
            i <= v@.len(),
            tekster(ut@).push(naa@) == splittet(s@.take(i as int), skiller@),
        decreases v@.len() - i,
    {
        assert(s@.take(i + 1).drop_last() =~= s@.take(i as int));
        let ghost foer = tekster(ut@).push(naa@);
        let ghost foer_ut = ut@;
        if er_blant(v[i], skiller) {
            ut.push(naa);
            naa = String::new();
            assert(tekster(ut@) =~= foer);
        } else {
            naa.push(v[i]);
            assert(foer.drop_last() =~= tekster(ut@));
        }
        i += 1;
    }
    assert(s@.take(i as int) =~= s@);
    let ghost foer = tekster(ut@).push(naa@);
    ut.push(naa);
    assert(tekster(ut@) =~= foer);
    ut
}

/// No piece of a split holds a separator.
pub proof fn splittet_uten_skiller(s: Seq<char>, skiller: Seq<char>)
    ensures
        splittet(s, skiller).len() >= 1,
        forall|i: int, c: char|
            #![trigger splittet(s, skiller)[i].contains(c)]
            0 <= i < splittet(s, skiller).len() && skiller.contains(c)
                ==> !splittet(s, skiller)[i].contains(c),
    decreases s.len(),
{
    if s.len() > 0 {
        splittet_uten_skiller(s.drop_last(), skiller);
        let foran = splittet(s.drop_last(), skiller);
        let alle = splittet(s, skiller);
        assert forall|i: int, c: char|
            #![trigger alle[i].contains(c)]
            0 <= i < alle.len() && skiller.contains(c) implies !alle[i].contains(c) by {
            if i < foran.len() - 1 || skiller.contains(s.last()) && i < foran.len() {
                assert(alle[i] == foran[i]);
            } else if !skiller.contains(s.last()) {
                assert(!foran[foran.len() - 1].contains(c));
                if alle[i].contains(c) {
                    let k = choose|k: int| 0 <= k < alle[i].len() && alle[i][k] == c;
                    if k < foran.last().len() {
                        assert(foran.last()[k] == c);
                    }
                }
            }
        }
    }
}

/// `s` without the run of `c` at its end.
pub open spec fn uten_slutt(s: Seq<char>, c: char) -> Seq<char>
    decreases s.len(),
{
    if s.len() > 0 && s.last() == c {
        uten_slutt(s.drop_last(), c)
    } else {
        s
    }
}

/// Removes every `c` at the end of `s`.
pub fn trim_slutt(s: &str, c: char) -> (r: String)
    ensures
        r@ == uten_slutt(s@, c),
{
    let v = tegn(s);
    let mut n: usize = v.len();
    assert(s@.take(n as int) =~= s@);
    while n > 0 && v[n - 1] == c
        invariant
            v@ == s@,
            n <= v@.len(),
            uten_slutt(s@.take(n as int), c) == uten_slutt(s@, c),
        decreases n,
    {
        assert(s@.take(n as int).drop_last() =~= s@.take(n - 1));
        n -= 1;
    }
    assert(s@.subrange(0, n as int) =~= s@.take(n as int));
    utsnitt(&v, 0, n)
}

/// `s` without the run of `c` at its beginning.
pub open spec fn uten_start(s: Seq<char>, c: char) -> Seq<char>
    decreases s.len(),
{
    if s.len() > 0 && s.first() == c {
        uten_start(s.drop_first(), c)
    } else {
        s
    }
}

/// Removes every `c` at either end of `s`.
pub fn trim_begge(s: &str, c: char) -> (r: String)
    ensures
        r@ == uten_start(uten_slutt(s@, c), c),
{
    let kort = trim_slutt(s, c);
    let v = tegn(kort.as_str());
    let mut i: usize = 0;
    assert(kort@.skip(0) =~= kort@);
    while i < v.len() && v[i] == c
        invariant
            v@ == kort@,
            i <= v@.len(),
            uten_start(kort@.skip(i as int), c) == uten_start(kort@, c),
        decreases v@.len() - i,
    {
        assert(kort@.skip(i as int).drop_first() =~= kort@.skip(i + 1));
        i += 1;
    }
    assert(kort@.subrange(i as int, v@.len() as int) =~= kort@.skip(i as int));
    utsnitt(&v, i, v.len())
}

/// The characters that Unicode gives the property `White_Space`.
pub open spec fn blankt(c: char) -> bool {
    let u = c as u32;
    ||| 0x9 <= u <= 0xD
    ||| u == 0x20
    ||| u == 0x85
    ||| u == 0xA0
    ||| u == 0x1680
    ||| 0x2000 <= u <= 0x200A
    ||| u == 0x2028
    ||| u == 0x2029
    ||| u == 0x202F
    ||| u == 0x205F
    ||| u == 0x3000
}

/// Whether `c` is white space.
pub fn er_blankt(c: char) -> (r: bool)
    ensures
        r == blankt(c),
{
    let u: u32 = c as u32;
    (0x9 <= u && u <= 0xD) || u == 0x20 || u == 0x85 || u == 0xA0 || u == 0x1680 || (0x2000 <= u
        && u <= 0x200A) || u == 0x2028 || u == 0x2029 || u == 0x202F || u == 0x205F || u == 0x3000
}

/// `s` without white space at either end.
pub open spec fn trimmet(s: Seq<char>) -> Seq<char>
    decreases s.len(),
{
    if s.len() > 0 && blankt(s.last()) {
        trimmet(s.drop_last())
    } else if s.len() > 0 && blankt(s.first()) {
        trimmet(s.drop_first())
    } else {
        s
    }
}

/// Removes white space from both ends of `s`.
pub fn trim(s: &str) -> (r: String)
    ensures
        r@ == trimmet(s@),
{
    let v = tegn(s);
    let mut til: usize = v.len();
    assert(s@.subrange(0, til as int) =~= s@);
    while til > 0 && er_blankt(v[til - 1])
        invariant
            v@ == s@,
            til <= v@.len(),
            trimmet(s@.subrange(0, til as int)) == trimmet(s@),
        decreases til,
    {
        assert(s@.subrange(0, til as int).drop_last() =~= s@.subrange(0, til - 1));
        til -= 1;
    }
    let mut fra: usize = 0;
    while fra < til && er_blankt(v[fra])
        invariant
            v@ == s@,
            fra <= til <= v@.len(),
            til > 0 ==> !blankt(s@[til - 1]),
            trimmet(s@.subrange(fra as int, til as int)) == trimmet(s@),
        decreases til - fra,
    {
        assert(s@.subrange(fra as int, til as int).drop_first() =~= s@.subrange(
            fra + 1,
            til as int,
        ));
        fra += 1;
    }
    utsnitt(&v, fra, til)
}

/// The lower-case form of an ASCII letter; every other character as it is.
pub open spec fn liten(c: char) -> char {
    if 'A' <= c && c <= 'Z' {
        ((c as u8) + 32) as u8 as char
    } else {
        c
    }
}

/// `s` with its ASCII letters in lower case.
pub open spec fn smaa(s: Seq<char>) -> Seq<char> {
    s.map_values(|c: char| liten(c))
}

/// Puts the ASCII letters of `s` in lower case.
pub fn til_smaa(s: &str) -> (r: String)
    ensures
        r@ == smaa(s@),
{
    let v = tegn(s);
    let mut ut = String::new();
    let mut i: usize = 0;
    while i < v.len()
        invariant
            v@ == s@,
            i <= v@.len(),
            ut@ == smaa(s@.take(i as int)),
        decreases v@.len() - i,
    {
        let c = v[i];
        let d = if 'A' <= c && c <= 'Z' {
            ((c as u8) + 32) as char
        } else {
            c
        };
        ut.push(d);
        i += 1;
        assert(ut@ =~= smaa(s@.take(i as int)));
    }
    assert(s@.take(i as int) =~= s@);
    ut
}

/// `s` with each character of `fra` replaced by `til`.
pub open spec fn byttet(s: Seq<char>, fra: Seq<char>, til: char) -> Seq<char> {
    s.map_values(
        |c: char|
            if fra.contains(c) {
                til
            } else {
                c
            },
    )
}

/// Replaces each character of `fra` by `til`.
pub fn bytt(s: &str, fra: &[char], til: char) -> (r: String)
    ensures
        r@ == byttet(s@, fra@, til),
{
    let v = tegn(s);
    let mut ut = String::new();
    let mut i: usize = 0;
    while i < v.len()
        invariant
            v@ == s@,
            i <= v@.len(),
            ut@ == byttet(s@.take(i as int), fra@, til),
        decreases v@.len() - i,
    {
        if er_blant(v[i], fra) {
            ut.push(til);
        } else {
            ut.push(v[i]);
        }
        i += 1;
        assert(ut@ =~= byttet(s@.take(i as int), fra@, til));
    }
    assert(s@.take(i as int) =~= s@);
    ut
}

/// The last position of `c` in `s`.
pub open spec fn siste_sted(s: Seq<char>, c: char) -> Option<int>
    decreases s.len(),
{
    if s.len() == 0 {
        None
    } else if s.last() == c {
        Some(s.len() - 1)
    } else {
        siste_sted(s.drop_last(), c)
    }
}

/// Finds the last position of `c`.
pub fn finn_siste(v: &Vec<char>, c: char) -> (r: Option<usize>)
    ensures
        match r {
            Some(i) => siste_sted(v@, c) == Some(i as int) && i < v@.len() && v@[i as int] == c,
            None => siste_sted(v@, c) is None,
        },
{
    let mut n: usize = v.len();
    assert(v@.take(n as int) =~= v@);
    while n > 0
        invariant
            n <= v@.len(),
            siste_sted(v@.take(n as int), c) == siste_sted(v@, c),
        decreases n,
    {
        if v[n - 1] == c {
            return Some(n - 1);
        }
        assert(v@.take(n as int).drop_last() =~= v@.take(n - 1));
        n -= 1;
    }
    None
}

/// The decimal digit of `d`.
pub open spec fn siffer(d: nat) -> char {
    (48 + d) as u8 as char
}

/// `n` in decimal, without leading zeros.
pub open spec fn desimaler(n: nat) -> Seq<char>
    decreases n,
{
    if n < 10 {
        seq![siffer(n)]
    } else {
        desimaler(n / 10).push(siffer(n % 10))
    }
}

/// Writes `n` in decimal.
pub fn desimal(n: u64) -> (r: String)
    ensures
        r@ == desimaler(n as nat),
    decreases n,
{
    let mut ut = if n < 10 {
        String::new()
    } else {
        desimal(n / 10)
    };
    let d: u8 = (n % 10) as u8;
    ut.push((48 + d) as char);
    assert(ut@ =~= desimaler(n as nat));
    ut
}

/// The hexadecimal digit of `d`, in lower case.
pub open spec fn hexsiffer(d: nat) -> char {
    if d < 10 {
        (48 + d) as u8 as char
    } else {
        (87 + d) as u8 as char
    }
}

/// The last `bredde` hexadecimal digits of `n`, in lower case, leading zeros kept.
pub open spec fn hexfelt(n: nat, bredde: nat) -> Seq<char>
    decreases bredde,
{
    if bredde == 0 {
        Seq::empty()
    } else {
        hexfelt(n / 16, (bredde - 1) as nat).push(hexsiffer(n % 16))
    }
}

/// Writes `n` in hexadecimal, in lower case, padded to sixteen digits.
pub fn hex16(n: u64) -> (r: String)
    ensures
        r@ == hexfelt(n as nat, 16),
{
    hex_av(n, 16)
}

fn hex_av(n: u64, bredde: u32) -> (r: String)
    ensures
        r@ == hexfelt(n as nat, bredde as nat),
    decreases bredde,
{
    if bredde == 0 {
        return String::new();
    }
    let mut ut = hex_av(n / 16, bredde - 1);
    let d: u8 = (n % 16) as u8;
    let c = if d < 10 {
        (48 + d) as char
    } else {
        (87 + d) as char
    };
    ut.push(c);
    ut
}

/// `s` with zeros in front until it is `bredde` characters long.
pub open spec fn nullfylt(s: Seq<char>, bredde: nat) -> Seq<char> {
    if s.len() >= bredde {
        s
    } else {
        Seq::new((bredde - s.len()) as nat, |i: int| '0') + s
    }
}

/// Writes `n` in decimal, padded with zeros to `bredde` characters.
pub fn desimal_fylt(n: u64, bredde: usize) -> (r: String)
    ensures
        r@ == nullfylt(desimaler(n as nat), bredde as nat),
{
    let tall = desimal(n);
    let lengde: usize = tegn(tall.as_str()).len();
    let mut ut = String::new();
    let mut i: usize = lengde;
    while i < bredde
        invariant
            lengde == tall@.len(),
            i >= lengde,
            bredde >= lengde ==> i <= bredde,
            bredde < lengde ==> i == lengde,
            ut@ == Seq::new((i - lengde) as nat, |k: int| '0'),
        decreases bredde - i,
    {
        ut.push('0');
        i += 1;
        assert(ut@ =~= Seq::new((i - lengde) as nat, |k: int| '0'));
    }
    ut.append(tall.as_str());
    assert(ut@ =~= nullfylt(desimaler(n as nat), bredde as nat));
    ut
}

/// `s` without every `p` at its beginning, one after another.
pub open spec fn uten_prefikser(s: Seq<char>, p: Seq<char>) -> Seq<char>
    decreases s.len(),
{
    if p.len() > 0 && har_prefiks(s, p) {
        uten_prefikser(s.skip(p.len() as int), p)
    } else {
        s
    }
}

/// Removes every `p` at the beginning of `s`.
pub fn trim_prefikser(s: &str, p: &str) -> (r: String)
    ensures
        r@ == uten_prefikser(s@, p@),
{
    let sv = tegn(s);
    let pv = tegn(p);
    let mut i: usize = 0;
    assert(s@.skip(0) =~= s@);
    while pv.len() > 0 && pv.len() <= sv.len() - i && staar_ved(&sv, &pv, i)
        invariant
            sv@ == s@,
            pv@ == p@,
            i <= sv@.len(),
            uten_prefikser(s@.skip(i as int), p@) == uten_prefikser(s@, p@),
        decreases sv@.len() - i,
    {
        assert(s@.skip(i as int).take(p@.len() as int) =~= s@.subrange(
            i as int,
            i + p@.len(),
        ));
        assert(s@.skip(i as int).skip(p@.len() as int) =~= s@.skip(i + p@.len()));
        i += pv.len();
    }
    proof {
        if p@.len() > 0 && p@.len() <= s@.len() - i {
            assert(s@.skip(i as int).take(p@.len() as int) =~= s@.subrange(
                i as int,
                i + p@.len(),
            ));
        }
        assert(s@.subrange(i as int, s@.len() as int) =~= s@.skip(i as int));
    }
    utsnitt(&sv, i, sv.len())
}

/// A text begins with another exactly where it is that one with something behind it, and
/// ends with another exactly where it is that one with something in front of it.
pub proof fn begynner_og_slutter(s: Seq<char>, p: Seq<char>)
    ensures
        har_prefiks(s, p) <==> exists|t: Seq<char>| s == #[trigger] (p + t),
        har_suffiks(s, p) <==> exists|t: Seq<char>| s == #[trigger] (t + p),
{
    if har_prefiks(s, p) {
        assert(s =~= p + s.skip(p.len() as int));
    }
    if exists|t: Seq<char>| s == #[trigger] (p + t) {
        let t = choose|t: Seq<char>| s == #[trigger] (p + t);
        assert((p + t).take(p.len() as int) =~= p);
    }
    if har_suffiks(s, p) {
        assert(s =~= s.take(s.len() - p.len()) + p);
    }
    if exists|t: Seq<char>| s == #[trigger] (t + p) {
        let t = choose|t: Seq<char>| s == #[trigger] (t + p);
        assert((t + p).skip((t + p).len() - p.len()) =~= p);
    }
}

/// Where a text that stands in another is found, it stands, and it does not stand further
/// in front.
pub proof fn forste_sted_er_forst(s: Seq<char>, p: Seq<char>)
    ensures
        forste_sted(s, p) is Some <==> exists|i: int| forekommer_fra(s, p, i),
        forste_sted(s, p) matches Some(i) ==> {
            &&& 0 <= i
            &&& i + p.len() <= s.len()
            &&& s.subrange(i, i + p.len()) == p
            &&& forall|j: int| 0 <= j < i ==> #[trigger] s.subrange(j, j + p.len()) != p
        },
{
    if inneholder_tekst(s, p) {
        let i = choose|i: int| forekommer_fra(s, p, i);
        forste_finnes(s, p, i);
        let f = forste_sted(s, p)->0;
        assert(forekommer_forst(s, p, f));
        assert forall|j: int| 0 <= j < f implies #[trigger] s.subrange(j, j + p.len()) != p by {
            assert(!forekommer_fra(s, p, j));
        }
    }
}

proof fn forste_finnes(s: Seq<char>, p: Seq<char>, i: int)
    requires
        forekommer_fra(s, p, i),
    ensures
        exists|f: int| forekommer_forst(s, p, f),
    decreases i,
{
    if exists|j: int| 0 <= j < i && forekommer_fra(s, p, j) {
        let j = choose|j: int| 0 <= j < i && forekommer_fra(s, p, j);
        forste_finnes(s, p, j);
    } else {
        assert(forekommer_forst(s, p, i));
    }
}

/// Where a character does not stand in a text, it is found at the place where it is put in.
pub proof fn tegnet_finnes_der_det_staar(a: Seq<char>, c: char, b: Seq<char>)
    requires
        !a.contains(c),
    ensures
        forste_sted(a.push(c) + b, seq![c]) == Some(a.len() as int),
{
    let s = a.push(c) + b;
    let n = a.len() as int;
    assert(s.subrange(n, n + 1) =~= seq![c]);
    assert(forekommer_fra(s, seq![c], n));
    forste_sted_er_forst(s, seq![c]);
    let i = forste_sted(s, seq![c])->0;
    assert(s.subrange(i, i + 1)[0] == s[i]);
    if i < n {
        assert(s[i] == a[i]);
        assert(a.contains(c));
    } else if i > n {
        assert(s.subrange(n, n + seq![c].len()) != seq![c]);
    }
}

/// A text is split at each separator and nowhere else: the pieces of two texts with a
/// separator between them are those of the first and those of the second.
pub proof fn splittes_ved_skillet(a: Seq<char>, c: char, b: Seq<char>, skiller: Seq<char>)
    requires
        skiller.contains(c),
    ensures
        splittet(a.push(c) + b, skiller) == splittet(a, skiller) + splittet(b, skiller),
    decreases b.len(),
{
    let s = a.push(c) + b;
    splittet_uten_skiller(a, skiller);
    if b.len() == 0 {
        assert(s =~= a.push(c));
        assert(s.drop_last() =~= a);
        assert(splittet(s, skiller) =~= splittet(a, skiller) + splittet(b, skiller));
    } else {
        let b0 = b.drop_last();
        splittes_ved_skillet(a, c, b0, skiller);
        splittet_uten_skiller(b0, skiller);
        assert(s.drop_last() =~= a.push(c) + b0);
        assert(s.last() == b.last());
        let x = splittet(a, skiller);
        let y = splittet(b0, skiller);
        assert((x + y).last() == y.last());
        assert((x + y).drop_last() =~= x + y.drop_last());
        assert(splittet(s, skiller) =~= x + splittet(b, skiller));
    }
}

/// A text without a separator is one piece.
pub proof fn uten_skille_ett_stykke(s: Seq<char>, skiller: Seq<char>)
    requires
        forall|i: int| 0 <= i < s.len() ==> !skiller.contains(#[trigger] s[i]),
    ensures
        splittet(s, skiller) == seq![s],
    decreases s.len(),
{
    if s.len() > 0 {
        let f = s.drop_last();
        assert forall|i: int| 0 <= i < f.len() implies !skiller.contains(#[trigger] f[i]) by {
            assert(f[i] == s[i]);
        }
        uten_skille_ett_stykke(f, skiller);
        assert(!skiller.contains(s[s.len() - 1]));
        assert(f.push(s.last()) =~= s);
        assert(splittet(s, skiller) =~= seq![s]);
    } else {
        assert(s =~= Seq::empty());
    }
}

/// What is removed from the end of a text is the character that is to go, all of it that
/// stands there, and nothing else.
pub proof fn bare_slutten_gaar(s: Seq<char>, c: char)
    ensures
        ({
            let r = uten_slutt(s, c);
            &&& r.len() <= s.len()
            &&& s.take(r.len() as int) == r
            &&& forall|i: int| r.len() <= i < s.len() ==> #[trigger] s[i] == c
            &&& r.len() > 0 ==> r.last() != c
        }),
    decreases s.len(),
{
    if s.len() > 0 && s.last() == c {
        bare_slutten_gaar(s.drop_last(), c);
        let r = uten_slutt(s, c);
        assert(s.take(r.len() as int) =~= s.drop_last().take(r.len() as int));
        assert forall|i: int| r.len() <= i < s.len() implies #[trigger] s[i] == c by {
            if i < s.len() - 1 {
                assert(s.drop_last()[i] == c);
            }
        }
    } else {
        assert(s.take(s.len() as int) =~= s);
    }
}

/// What is removed from the beginning of a text is the character that is to go, all of it
/// that stands there, and nothing else.
pub proof fn bare_starten_gaar(s: Seq<char>, c: char)
    ensures
        ({
            let r = uten_start(s, c);
            let n = s.len() - r.len();
            &&& r.len() <= s.len()
            &&& s.skip(n) == r
            &&& forall|i: int| 0 <= i < n ==> #[trigger] s[i] == c
            &&& r.len() > 0 ==> r[0] != c
        }),
    decreases s.len(),
{
    if s.len() > 0 && s.first() == c {
        let d = s.drop_first();
        bare_starten_gaar(d, c);
        let r = uten_start(s, c);
        let n = s.len() - r.len();
        assert(s.skip(n) =~= d.skip(n - 1));
        assert forall|i: int| 0 <= i < n implies #[trigger] s[i] == c by {
            if i > 0 {
                assert(d[i - 1] == c);
            }
        }
    } else {
        assert(s.skip(0) =~= s);
    }
}

/// What is trimmed off a text is white space at its ends, all of it, and nothing else: the
/// rest stands in the text from the first place that is given to the second.
pub proof fn bare_blankt_trimmes(s: Seq<char>) -> (r: (int, int))
    ensures
        0 <= r.0 <= r.1 <= s.len(),
        trimmet(s) == s.subrange(r.0, r.1),
        forall|i: int| 0 <= i < r.0 ==> blankt(#[trigger] s[i]),
        forall|i: int| r.1 <= i < s.len() ==> blankt(#[trigger] s[i]),
        r.0 < r.1 ==> !blankt(s[r.0]) && !blankt(s[r.1 - 1]),
    decreases s.len(),
{
    if s.len() > 0 && blankt(s.last()) {
        let d = s.drop_last();
        let (i, j) = bare_blankt_trimmes(d);
        assert(d.subrange(i, j) =~= s.subrange(i, j));
        assert forall|k: int| 0 <= k < i implies blankt(#[trigger] s[k]) by {
            assert(blankt(d[k]));
        }
        assert forall|k: int| j <= k < s.len() implies blankt(#[trigger] s[k]) by {
            if k < d.len() {
                assert(blankt(d[k]));
            }
        }
        (i, j)
    } else if s.len() > 0 && blankt(s.first()) {
        let d = s.drop_first();
        let (i, j) = bare_blankt_trimmes(d);
        assert(d.subrange(i, j) =~= s.subrange(i + 1, j + 1));
        assert forall|k: int| 0 <= k < i + 1 implies blankt(#[trigger] s[k]) by {
            if k > 0 {
                assert(blankt(d[k - 1]));
            }
        }
        assert forall|k: int| j + 1 <= k < s.len() implies blankt(#[trigger] s[k]) by {
            assert(blankt(d[k - 1]));
        }
        (i + 1, j + 1)
    } else {
        assert(s.subrange(0, s.len() as int) =~= s);
        (0, s.len() as int)
    }
}

/// White space in ASCII is the space and the five characters from the tabulator to the
/// carriage return.
pub proof fn blankt_i_ascii(c: char)
    requires
        (c as u32) < 128,
    ensures
        blankt(c) <==> c == ' ' || 9 <= c as u32 <= 13,
{
}

/// In lower case the letters from A to Z become those from a to z, 32 places further on,
/// and every other character stays.
pub proof fn smaa_bokstav_for_bokstav(s: Seq<char>, i: int)
    requires
        0 <= i < s.len(),
    ensures
        smaa(s).len() == s.len(),
        65 <= s[i] as int <= 90 ==> smaa(s)[i] as int == s[i] as int + 32,
        !(65 <= s[i] as int <= 90) ==> smaa(s)[i] == s[i],
{
}

/// Each character that is to be replaced is, and no other, and the text keeps its length.
pub proof fn byttes_tegn_for_tegn(s: Seq<char>, fra: Seq<char>, til: char, i: int)
    requires
        0 <= i < s.len(),
    ensures
        byttet(s, fra, til).len() == s.len(),
        fra.contains(s[i]) ==> byttet(s, fra, til)[i] == til,
        !fra.contains(s[i]) ==> byttet(s, fra, til)[i] == s[i],
{
}

/// The last place of a character holds it, and no later place does; it has none exactly
/// where the text does not hold it.
pub proof fn siste_sted_er_sist(s: Seq<char>, c: char)
    ensures
        siste_sted(s, c) is Some <==> s.contains(c),
        siste_sted(s, c) matches Some(i) ==> 0 <= i < s.len() && s[i] == c && !s.skip(
            i + 1,
        ).contains(c),
    decreases s.len(),
{
    if s.len() > 0 {
        let d = s.drop_last();
        siste_sted_er_sist(d, c);
        if s.last() == c {
            assert(s[s.len() - 1] == c);
            assert(s.skip(s.len() as int) =~= Seq::empty());
        } else {
            if s.contains(c) {
                let k = choose|k: int| 0 <= k < s.len() && s[k] == c;
                assert(d[k] == c);
            }
            if d.contains(c) {
                let k = choose|k: int| 0 <= k < d.len() && d[k] == c;
                assert(s[k] == c);
            }
            if let Some(i) = siste_sted(d, c) {
                let bak = s.skip(i + 1);
                if bak.contains(c) {
                    let k = choose|k: int| 0 <= k < bak.len() && bak[k] == c;
                    assert(s[i + 1 + k] == c);
                    assert(d.skip(i + 1)[k] == c);
                }
            }
        }
    }
}

/// A character that is put into a text behind the last of its kind is the last.
pub proof fn siste_sted_er_der_det_staar(a: Seq<char>, c: char, b: Seq<char>)
    requires
        !b.contains(c),
    ensures
        siste_sted(a.push(c) + b, c) == Some(a.len() as int),
{
    let s = a.push(c) + b;
    let n = a.len() as int;
    siste_sted_er_sist(s, c);
    assert(s[n] == c);
    assert(s.contains(c));
    let i = siste_sted(s, c)->0;
    if i < n {
        assert(s.skip(i + 1)[n - i - 1] == c);
    } else if i > n {
        assert(b[i - n - 1] == c);
    }
}

/// The decimal form of a number has its digits in their places: the digit `k` places from
/// the end counts the `k`th power of ten, and there are no more digits than it takes.
pub proof fn sifrene_staar_paa_plass(n: nat, k: nat)
    ensures
        desimaler(n).len() > 0,
        k < desimaler(n).len() ==> desimaler(n)[desimaler(n).len() - 1 - k] as int == 48 + (n
            as int / pow(10, k)) % 10,
        n < pow(10, desimaler(n).len()),
        n > 0 ==> n >= pow(10, (desimaler(n).len() - 1) as nat),
        n == 0 ==> desimaler(n).len() == 1,
    decreases n,
{
    reveal(pow);
    let d = desimaler(n);
    lemma_pow0(10);
    lemma_pow1(10);
    if n < 10 {
        if k == 0 {
            assert(n as int / 1 == n);
        }
    } else {
        let m = n / 10;
        let e = desimaler(m);
        let l = e.len();
        sifrene_staar_paa_plass(m, if k > 0 {
            (k - 1) as nat
        } else {
            0
        });
        assert(d.len() == l + 1);
        assert(pow(10, l + 1) == 10 * pow(10, l));
        assert(pow(10, l) == 10 * pow(10, (l - 1) as nat));
        if k < d.len() && k > 0 {
            let j = (k - 1) as nat;
            assert(d[d.len() - 1 - k] == e[l - 1 - j]);
            assert(pow(10, k) == 10 * pow(10, j));
            lemma_pow_positive(10, j);
            lemma_div_denominator(n as int, 10, pow(10, j));
            assert(n as int / (10 * pow(10, j)) == (m as int) / pow(10, j));
        }
        if k == 0 {
            assert(n as int / 1 == n);
        }
    }
}

/// The hexadecimal form of a number has its digits in their places, from `0` to `9` and
/// from `a` to `f`: the digit `k` places from the end counts the `k`th power of sixteen.
pub proof fn hexsifrene_staar_paa_plass(n: nat, bredde: nat, k: nat)
    requires
        k < bredde,
    ensures
        hexfelt(n, bredde).len() == bredde,
        ({
            let c = hexfelt(n, bredde)[bredde - 1 - k] as int;
            let d = (n as int / pow(16, k)) % 16;
            &&& d < 10 ==> c == 48 + d
            &&& d >= 10 ==> c == 97 + (d - 10)
        }),
    decreases bredde,
{
    reveal(pow);
    lemma_pow0(16);
    let f = hexfelt(n / 16, (bredde - 1) as nat);
    hexfelt_lengde(n / 16, (bredde - 1) as nat);
    if k == 0 {
        assert(n as int / 1 == n);
    } else {
        let j = (k - 1) as nat;
        hexsifrene_staar_paa_plass(n / 16, (bredde - 1) as nat, j);
        assert(hexfelt(n, bredde)[bredde - 1 - k] == f[bredde - 1 - 1 - j]);
        lemma_pow_positive(16, j);
        lemma_div_denominator(n as int, 16, pow(16, j));
        assert(pow(16, k) == 16 * pow(16, j));
    }
}

proof fn hexfelt_lengde(n: nat, bredde: nat)
    ensures
        hexfelt(n, bredde).len() == bredde,
    decreases bredde,
{
    if bredde > 0 {
        hexfelt_lengde(n / 16, (bredde - 1) as nat);
    }
}

/// A text that is filled up with zeros is at least so long, and is no longer where it was
/// not; the text stands at its end, and in front of it there are only zeros.
pub proof fn nuller_bare_foran(s: Seq<char>, bredde: nat)
    ensures
        ({
            let r = nullfylt(s, bredde);
            &&& r.len() >= bredde && r.len() >= s.len()
            &&& r.len() == bredde || r.len() == s.len()
            &&& r.skip(r.len() - s.len()) == s
            &&& forall|i: int| 0 <= i < r.len() - s.len() ==> #[trigger] r[i] == '0'
        }),
{
    let r = nullfylt(s, bredde);
    assert(r.skip(r.len() - s.len()) =~= s);
}

/// What is removed from the beginning of a text is the other text, so many times as it
/// stands there, and nothing else.
pub proof fn bare_prefiksene_gaar(s: Seq<char>, p: Seq<char>) -> (ganger: nat)
    requires
        p.len() > 0,
    ensures
        ({
            let r = uten_prefikser(s, p);
            &&& s.len() == ganger * p.len() + r.len()
            &&& s.skip((ganger * p.len()) as int) == r
            &&& forall|k: int|
                0 <= k < ganger ==> #[trigger] s.subrange(k * p.len(), k * p.len() + p.len()) == p
            &&& !(p.len() <= r.len() && r.take(p.len() as int) == p)
        }),
    decreases s.len(),
{
    if har_prefiks(s, p) {
        let d = s.skip(p.len() as int);
        let g = bare_prefiksene_gaar(d, p);
        let r = uten_prefikser(s, p);
        let ganger = g + 1;
        assert(ganger * p.len() == g * p.len() + p.len()) by (nonlinear_arith)
            requires
                ganger == g + 1,
        ;
        assert(s.skip((ganger * p.len()) as int) =~= d.skip((g * p.len()) as int));
        assert forall|k: int| 0 <= k < ganger implies #[trigger] s.subrange(
            k * p.len(),
            k * p.len() + p.len(),
        ) == p by {
            if k == 0 {
                assert(0 * p.len() == 0);
                assert(s.subrange(0, p.len() as int) =~= s.take(p.len() as int));
            } else {
                let j = k - 1;
                assert(k * p.len() == j * p.len() + p.len()) by (nonlinear_arith)
                    requires
                        k == j + 1,
                ;
                assert(j * p.len() + p.len() <= g * p.len()) by (nonlinear_arith)
                    requires
                        j + 1 <= g,
                ;
                assert(0 <= j * p.len()) by (nonlinear_arith)
                    requires
                        0 <= j,
                ;
                assert(d.subrange(j * p.len(), j * p.len() + p.len()) == p);
                assert(s.subrange(k * p.len(), k * p.len() + p.len()) =~= d.subrange(
                    j * p.len(),
                    j * p.len() + p.len(),
                ));
            }
        }
        ganger
    } else {
        assert(s.skip(0) =~= s);
        0
    }
}

} // verus!
