//! File names: making names from the server safe on disk, names that avoid a file that
//! is already there, and the names of the files that a transfer leaves behind.
use crate::tekst::{
    byttet, bytt, desimal, desimaler, finn_siste, lik, siffer, siste_sted,
    siste_sted_er_der_det_staar, siste_sted_er_sist, splitt, splittes_ved_skillet, splittet, tegn,
    tekster, trim_slutt, uten_skille_ett_stykke, uten_slutt, utsnitt,
};
use vstd::prelude::*;
use vstd::string::*;

verus! {

/// The characters that no file name may hold.
pub open spec fn forbudt() -> Seq<char> {
    seq!['\\', '/', ':', '*', '?', '"', '<', '>', '|']
}

/// The characters at which a path is split.
pub open spec fn skilletegn() -> Seq<char> {
    seq!['/', '\\']
}

/// A name with each forbidden character replaced by an underscore.
pub open spec fn trygt(s: Seq<char>) -> Seq<char> {
    byttet(s, forbudt(), '_')
}

/// Makes a name safe to use as one file name.
pub fn trygt_navn(s: &str) -> (r: String)
    ensures
        r@ == trygt(s@),
{
    let f: [char; 9] = ['\\', '/', ':', '*', '?', '"', '<', '>', '|'];
    assert(f@ =~= forbudt());
    bytt(s, &f, '_')
}

/// A safe name holds none of the forbidden characters, is as long as the name it was
/// made of, keeps every other character, and is not changed by making it safe again.
pub proof fn trygt_navn_er_trygt(s: Seq<char>)
    ensures
        trygt(s).len() == s.len(),
        forall|c: char| forbudt().contains(c) ==> !#[trigger] trygt(s).contains(c),
        forall|i: int|
            0 <= i < s.len() && !forbudt().contains(s[i]) ==> #[trigger] trygt(s)[i] == s[i],
        trygt(trygt(s)) == trygt(s),
{
    assert(forbudt()[0] == '\\' && !forbudt().contains('_'));
    assert forall|c: char| forbudt().contains(c) implies !#[trigger] trygt(s).contains(c) by {
        if trygt(s).contains(c) {
            let i = choose|i: int| 0 <= i < s.len() && trygt(s)[i] == c;
            assert(forbudt().contains(s[i]) ==> c == '_');
        }
    }
    assert forall|i: int| 0 <= i < s.len() implies trygt(trygt(s))[i] == trygt(s)[i] by {
        assert(trygt(s).contains(trygt(s)[i]));
    }
    assert(trygt(trygt(s)) =~= trygt(s));
}

/// Whether a piece of a path is kept: not empty, and neither `.` nor `..`.
pub open spec fn beholdes(d: Seq<char>) -> bool {
    d.len() > 0 && d != "."@ && d != ".."@
}

/// The folders of a path from the server: its pieces, without the empty ones and the
/// ones that point elsewhere, each made safe.
pub open spec fn trygge_deler(sti: Seq<char>) -> Seq<Seq<char>> {
    splittet(sti, skilletegn()).filter(|d: Seq<char>| beholdes(d)).map_values(
        |d: Seq<char>| trygt(d),
    )
}

/// The folders, below the download folder, in which a file with this path is put.
pub fn trygg_sti(sti: &str) -> (r: Vec<String>)
    ensures
        tekster(r@) == trygge_deler(sti@),
{
    let skille: [char; 2] = ['/', '\\'];
    assert(skille@ =~= skilletegn());
    let deler = splitt(sti, &skille);
    let ghost alle = tekster(deler@);
    let ghost p = |d: Seq<char>| beholdes(d);
    let ghost t = |d: Seq<char>| trygt(d);
    let mut ut: Vec<String> = Vec::new();
    let mut i: usize = 0;
    assert(alle.take(0).filter(p) =~= Seq::<Seq<char>>::empty()) by {
        reveal(Seq::filter);
    }
    while i < deler.len()
        invariant
            i <= deler@.len(),
            alle == tekster(deler@),
            p == (|d: Seq<char>| beholdes(d)),
            t == (|d: Seq<char>| trygt(d)),
            tekster(ut@) == alle.take(i as int).filter(p).map_values(t),
        decreases deler@.len() - i,
    {
        let d = deler[i].as_str();
        assert(alle.take(i + 1).drop_last() =~= alle.take(i as int));
        assert(alle.take(i + 1).last() == d@);
        let ghost foer = ut@;
        proof {
            reveal(Seq::filter);
        }
        if !d.is_empty() && !lik(d, ".") && !lik(d, "..") {
            ut.push(trygt_navn(d));
            assert(tekster(ut@) =~= tekster(foer).push(trygt(d@)));
            assert(alle.take(i + 1).filter(p).map_values(t) =~= alle.take(i as int).filter(
                p,
            ).map_values(t).push(trygt(d@)));
        }
        i += 1;
    }
    assert(alle.take(i as int) =~= alle);
    ut
}

/// A file from the server never lands outside the download folder: every folder of its
/// path is a name of its own, neither empty nor `.` nor `..`, that holds no separator
/// and no other forbidden character.
pub proof fn trygg_sti_holder_seg_i_mappa(sti: Seq<char>)
    ensures
        forall|i: int|
            0 <= i < trygge_deler(sti).len() ==> {
                let d = #[trigger] trygge_deler(sti)[i];
                &&& d.len() > 0
                &&& d != "."@
                &&& d != ".."@
                &&& forall|c: char| forbudt().contains(c) ==> !d.contains(c)
            },
{
    let p = |d: Seq<char>| beholdes(d);
    let beholdt = splittet(sti, skilletegn()).filter(p);
    reveal_strlit(".");
    reveal_strlit("..");
    assert forall|i: int| 0 <= i < trygge_deler(sti).len() implies {
        let d = #[trigger] trygge_deler(sti)[i];
        &&& d.len() > 0
        &&& d != "."@
        &&& d != ".."@
        &&& forall|c: char| forbudt().contains(c) ==> !d.contains(c)
    } by {
        splittet(sti, skilletegn()).lemma_filter_pred(p, i);
        let d = beholdt[i];
        assert(beholdes(d));
        trygt_navn_er_trygt(d);
        assert(trygge_deler(sti)[i] == trygt(d));
        assert(!forbudt().contains('_') && forbudt()[0] == '\\');
        if trygt(d) == "."@ {
            assert(trygt(d)[0] == '.');
            assert(d =~= "."@);
        }
        if trygt(d) == ".."@ {
            assert(trygt(d)[0] == '.' && trygt(d)[1] == '.');
            assert(d =~= ".."@);
        }
    }
}

/// A name up to its last full stop; the whole name where it has none.
pub open spec fn stamme(navn: Seq<char>) -> Seq<char> {
    match siste_sted(navn, '.') {
        Some(i) => navn.take(i),
        None => navn,
    }
}

/// A name from its last full stop on; empty where it has none.
pub open spec fn endelse(navn: Seq<char>) -> Seq<char> {
    match siste_sted(navn, '.') {
        Some(i) => navn.skip(i),
        None => Seq::empty(),
    }
}

/// The `n`th name tried for a file whose own name is taken: `name (n).ext`.
pub open spec fn kandidat(navn: Seq<char>, n: nat) -> Seq<char> {
    stamme(navn) + " ("@ + desimaler(n) + ")"@ + endelse(navn)
}

/// The name before its last full stop.
pub fn stamme_av(navn: &str) -> (r: String)
    ensures
        r@ == stamme(navn@),
{
    let v = tegn(navn);
    match finn_siste(&v, '.') {
        Some(i) => utsnitt(&v, 0, i),
        None => navn.to_owned(),
    }
}

/// The name from its last full stop on.
pub fn endelse_av(navn: &str) -> (r: String)
    ensures
        r@ == endelse(navn@),
{
    let v = tegn(navn);
    match finn_siste(&v, '.') {
        Some(i) => utsnitt(&v, i, v.len()),
        None => String::new(),
    }
}

/// Writes the `n`th name tried for a file whose own name is taken.
pub fn kandidatnavn(navn: &str, n: u64) -> (r: String)
    ensures
        r@ == kandidat(navn@, n as nat),
{
    let mut ut = stamme_av(navn);
    ut.append(" (");
    ut.append(desimal(n).as_str());
    ut.append(")");
    ut.append(endelse_av(navn).as_str());
    ut
}

/// Different numbers have different decimal forms.
pub proof fn desimaler_ulike(a: nat, b: nat)
    requires
        desimaler(a) == desimaler(b),
    ensures
        a == b,
    decreases a,
{
    assert(desimaler(a).last() == siffer(a % 10));
    assert(desimaler(b).last() == siffer(b % 10));
    assert(siffer(a % 10) as int == 48 + a % 10);
    assert(siffer(b % 10) as int == 48 + b % 10);
    if a >= 10 {
        assert(desimaler(a / 10).len() >= 1);
    }
    if b >= 10 {
        assert(desimaler(b / 10).len() >= 1);
    }
    if a >= 10 && b >= 10 {
        assert(desimaler(a).drop_last() =~= desimaler(a / 10));
        assert(desimaler(b).drop_last() =~= desimaler(b / 10));
        desimaler_ulike(a / 10, b / 10);
    }
}

/// No two of the names tried for one file are the same, so keeping both files always
/// ends in a name of its own.
pub proof fn kandidater_ulike(navn: Seq<char>, a: nat, b: nat)
    requires
        a != b,
    ensures
        kandidat(navn, a) != kandidat(navn, b),
{
    if kandidat(navn, a) == kandidat(navn, b) {
        let foran = stamme(navn) + " ("@;
        let bak = ")"@ + endelse(navn);
        let x = kandidat(navn, a);
        assert(x =~= foran + desimaler(a) + bak);
        assert(x =~= foran + desimaler(b) + bak);
        assert(desimaler(a) =~= x.subrange(foran.len() as int, x.len() - bak.len()));
        assert(desimaler(b) =~= x.subrange(foran.len() as int, x.len() - bak.len()));
        desimaler_ulike(a, b);
    }
}

/// The file in which an unfinished download lies.
pub fn part_navn(filnavn: &str) -> (r: String)
    ensures
        r@ == trygt(filnavn@) + ".part"@,
{
    let mut ut = trygt_navn(filnavn);
    ut.append(".part");
    ut
}

/// The decimal form of a number holds no forbidden character.
proof fn desimaler_er_trygge(n: nat)
    ensures
        forall|c: char| forbudt().contains(c) ==> !#[trigger] desimaler(n).contains(c),
    decreases n,
{
    let d = desimaler(n);
    if n >= 10 {
        desimaler_er_trygge(n / 10);
    }
    assert forall|c: char| forbudt().contains(c) implies !#[trigger] d.contains(c) by {
        if d.contains(c) {
            let i = choose|i: int| 0 <= i < d.len() && d[i] == c;
            if n >= 10 && i < d.len() - 1 {
                assert(desimaler(n / 10)[i] == c);
                assert(desimaler(n / 10).contains(c));
            } else {
                assert(c == siffer(n % 10));
                let k = choose|k: int| 0 <= k < forbudt().len() && forbudt()[k] == c;
            }
        }
    }
}

/// Neither the names tried for a file whose own name is taken nor the name of its unfinished
/// file hold a separator or another forbidden character.
pub proof fn filnavnene_er_trygge(filnavn: Seq<char>, n: nat)
    ensures
        forall|c: char|
            forbudt().contains(c) ==> !#[trigger] kandidat(trygt(filnavn), n).contains(c),
        forall|c: char|
            forbudt().contains(c) ==> !#[trigger] (trygt(filnavn) + ".part"@).contains(c),
{
    let t = trygt(filnavn);
    trygt_navn_er_trygt(filnavn);
    desimaler_er_trygge(n);
    reveal_strlit(" (");
    reveal_strlit(")");
    reveal_strlit(".part");
    siste_sted_er_der(t, '.');
    let a = stamme(t);
    let b = endelse(t);
    let d = desimaler(n);
    let k = kandidat(t, n);
    assert forall|c: char| forbudt().contains(c) implies !#[trigger] k.contains(c) by {
        assert(!t.contains(c) && !d.contains(c));
        let q = choose|q: int| 0 <= q < forbudt().len() && forbudt()[q] == c;
        if k.contains(c) {
            let i = choose|i: int| 0 <= i < k.len() && k[i] == c;
            if i < a.len() {
                assert(t[i] == c);
            } else if i < a.len() + 2 {
                assert(k[i] == " ("@[i - a.len()]);
            } else if i < a.len() + 2 + d.len() {
                assert(d[i - a.len() - 2] == c);
            } else if i < a.len() + 3 + d.len() {
                assert(k[i] == ")"@[0]);
            } else {
                let j = i - a.len() - 3 - d.len();
                assert(b[j] == c);
                assert(t[t.len() - b.len() + j] == c);
            }
        }
    }
    let p = t + ".part"@;
    assert forall|c: char| forbudt().contains(c) implies !#[trigger] p.contains(c) by {
        assert(!t.contains(c));
        let q = choose|q: int| 0 <= q < forbudt().len() && forbudt()[q] == c;
        if p.contains(c) {
            let i = choose|i: int| 0 <= i < p.len() && p[i] == c;
            if i < t.len() {
                assert(t[i] == c);
            } else {
                assert(p[i] == ".part"@[i - t.len()]);
            }
        }
    }
}

proof fn siste_sted_er_der(s: Seq<char>, c: char)
    ensures
        siste_sted(s, c) matches Some(i) ==> 0 <= i < s.len() && s[i] == c,
    decreases s.len(),
{
    if s.len() > 0 {
        siste_sted_er_der(s.drop_last(), c);
    }
}

/// The name of a job's log file, for a time stamp.
pub fn loggnavn(jobbnavn: &str, stempel: &str) -> (r: String)
    ensures
        r@ == trygt(jobbnavn@) + " "@ + uten_slutt(byttet(stempel@, seq!['/', ':', ' '], '-'), 'Z')
            + ".log"@,
{
    let skille: [char; 3] = ['/', ':', ' '];
    assert(skille@ =~= seq!['/', ':', ' ']);
    let tid = bytt(stempel, &skille, '-');
    let mut ut = trygt_navn(jobbnavn);
    ut.append(" ");
    ut.append(trim_slutt(tid.as_str(), 'Z').as_str());
    ut.append(".log");
    ut
}

/// In a safe name an underscore stands for each of the nine characters that cannot stand in a
/// file name, and every other character for itself.
pub proof fn ni_tegn_blir_strek(s: Seq<char>, i: int)
    requires
        0 <= i < s.len(),
    ensures
        ({
            let c = s[i];
            let farlig = c == '\\' || c == '/' || c == ':' || c == '*' || c == '?' || c == '"' || c
                == '<' || c == '>' || c == '|';
            &&& trygt(s).len() == s.len()
            &&& farlig ==> trygt(s)[i] == '_'
            &&& !farlig ==> trygt(s)[i] == c
        }),
{
    let f = forbudt();
    assert(f[0] == '\\' && f[1] == '/' && f[2] == ':' && f[3] == '*' && f[4] == '?' && f[5] == '"'
        && f[6] == '<' && f[7] == '>' && f[8] == '|');
}

/// A name is what stands before its last full stop and what stands from there on. The second
/// is empty exactly where there is no full stop, and else holds one, at its beginning.
pub proof fn stamme_og_endelse(navn: Seq<char>)
    ensures
        stamme(navn) + endelse(navn) == navn,
        endelse(navn).len() == 0 <==> !navn.contains('.'),
        endelse(navn).len() > 0 ==> endelse(navn)[0] == '.' && !endelse(navn).skip(1).contains('.'),
{
    siste_sted_er_sist(navn, '.');
    match siste_sted(navn, '.') {
        Some(i) => {
            assert(navn.take(i) + navn.skip(i) =~= navn);
            assert(navn.skip(i).skip(1) =~= navn.skip(i + 1));
        },
        None => {
            assert(stamme(navn) + endelse(navn) =~= navn);
        },
    }
}

/// The names that are tried have the number in brackets before the kind of the file: `b` is
/// the kind.
pub proof fn nummeret_staar_foran_endelsen(a: Seq<char>, b: Seq<char>, n: nat)
    requires
        !b.contains('.'),
    ensures
        kandidat(a.push('.') + b, n) == a + " ("@ + desimaler(n) + ")"@ + (seq!['.'] + b),
        kandidat(b, n) == b + " ("@ + desimaler(n) + ")"@,
{
    let navn = a.push('.') + b;
    siste_sted_er_der_det_staar(a, '.', b);
    assert(navn.take(a.len() as int) =~= a);
    assert(navn.skip(a.len() as int) =~= seq!['.'] + b);
    siste_sted_er_sist(b, '.');
    assert(b + " ("@ + desimaler(n) + ")"@ + Seq::empty() =~= b + " ("@ + desimaler(n) + ")"@);
}

/// The folders of a path are those on either side of each separator, in order.
pub proof fn mappene_paa_hver_side(a: Seq<char>, c: char, b: Seq<char>)
    requires
        c == '/' || c == '\\',
    ensures
        trygge_deler(a.push(c) + b) == trygge_deler(a) + trygge_deler(b),
{
    let sk = skilletegn();
    assert(sk[0] == '/' && sk[1] == '\\');
    assert(sk.contains(c));
    splittes_ved_skillet(a, c, b, sk);
    let p = |d: Seq<char>| beholdes(d);
    let f = |d: Seq<char>| trygt(d);
    let x = splittet(a, sk);
    let y = splittet(b, sk);
    Seq::filter_distributes_over_add(x, y, p);
    assert((x.filter(p) + y.filter(p)).map_values(f) =~= x.filter(p).map_values(f) + y.filter(
        p,
    ).map_values(f));
}

/// A piece of a path without a separator is one folder, made safe, unless it is empty or
/// points elsewhere: then it is none.
pub proof fn et_stykke_er_en_mappe(d: Seq<char>)
    requires
        !d.contains('/'),
        !d.contains('\\'),
    ensures
        d.len() == 0 || d == "."@ || d == ".."@ ==> trygge_deler(d).len() == 0,
        d.len() > 0 && d != "."@ && d != ".."@ ==> trygge_deler(d) == seq![trygt(d)],
{
    let sk = skilletegn();
    assert forall|i: int| 0 <= i < d.len() implies !sk.contains(#[trigger] d[i]) by {
        if sk.contains(d[i]) {
            assert(d[i] == '/' || d[i] == '\\');
            assert(d.contains(d[i]));
        }
    }
    uten_skille_ett_stykke(d, sk);
    let p = |d: Seq<char>| beholdes(d);
    let f = |d: Seq<char>| trygt(d);
    let en = seq![d];
    reveal(Seq::filter);
    assert(en.drop_last() =~= Seq::<Seq<char>>::empty());
    assert(en.drop_last().filter(p) =~= Seq::<Seq<char>>::empty());
    assert(en.last() == d);
    if beholdes(d) {
        assert(en.filter(p) =~= seq![d]);
        assert(trygge_deler(d) =~= seq![trygt(d)]);
    } else {
        assert(en.filter(p) =~= Seq::<Seq<char>>::empty());
        assert(trygge_deler(d) =~= Seq::<Seq<char>>::empty());
    }
}

} // verus!
