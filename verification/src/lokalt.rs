//! The files in a local folder: which of them count, how the folder is walked through, and
//! in what order they come.
use crate::mapper::{er_navn, mappenavn, sti_av, stien_leses_som_skrevet};
use crate::opplasting::OppFil;
use crate::tekst::{bytt, byttet, har_prefiks, har_suffiks, slutter_med, starter_med, tekster};
use vstd::prelude::*;
use vstd::string::*;
use vstd::utf8::encode_utf8;

verus! {

/// Whether a file or folder with this name is left out: what is hidden, downloads that are
/// not finished, and logs.
pub open spec fn utelatt(navn: Seq<char>) -> bool {
    ||| har_prefiks(navn, "."@)
    ||| har_suffiks(navn, ".part"@)
    ||| har_suffiks(navn, ".log"@)
}

/// Decides whether a file or folder with this name is left out.
pub fn er_utelatt(navn: &str) -> (r: bool)
    ensures
        r == utelatt(navn@),
{
    starter_med(navn, ".") || slutter_med(navn, ".part") || slutter_med(navn, ".log")
}

/// A path with slashes, whatever the system writes.
pub fn med_skraastrek(sti: &str) -> (r: String)
    ensures
        r@ == byttet(sti@, seq!['\\'], '/'),
{
    let fra: [char; 1] = ['\\'];
    assert(fra@ =~= seq!['\\']);
    bytt(sti, &fra, '/')
}

/// Whether `a` comes before `b`: at the first byte in which they differ it has the smaller
/// one, or it is the beginning of `b`.
pub open spec fn foer(a: Seq<u8>, b: Seq<u8>) -> bool
    decreases a.len(),
{
    if b.len() == 0 {
        false
    } else if a.len() == 0 {
        true
    } else if a[0] == b[0] {
        foer(a.skip(1), b.skip(1))
    } else {
        a[0] < b[0]
    }
}

/// Whether the first text comes before the second.
pub fn kommer_foer(a: &str, b: &str) -> (r: bool)
    ensures
        r == foer(encode_utf8(a@), encode_utf8(b@)),
{
    let x = a.as_bytes();
    let y = b.as_bytes();
    let ghost hele = foer(x@, y@);
    let mut i: usize = 0;
    assert(x@.skip(0) =~= x@ && y@.skip(0) =~= y@);
    while i < x.len() && i < y.len()
        invariant
            i <= x@.len(),
            i <= y@.len(),
            x@ == encode_utf8(a@),
            y@ == encode_utf8(b@),
            hele == foer(x@, y@),
            foer(x@.skip(i as int), y@.skip(i as int)) == hele,
        decreases x@.len() - i,
    {
        if x[i] != y[i] {
            return x[i] < y[i];
        }
        assert(x@.skip(i as int).skip(1) =~= x@.skip(i + 1));
        assert(y@.skip(i as int).skip(1) =~= y@.skip(i + 1));
        i += 1;
    }
    i < y.len()
}

proof fn foer_er_streng(a: Seq<u8>, b: Seq<u8>)
    ensures
        !(foer(a, b) && foer(b, a)),
        !foer(a, b) && !foer(b, a) ==> a == b,
        a == b ==> !foer(a, b),
    decreases a.len(),
{
    if a.len() > 0 && b.len() > 0 {
        foer_er_streng(a.skip(1), b.skip(1));
        if a[0] == b[0] && a.skip(1) == b.skip(1) {
            assert(a =~= seq![a[0]] + a.skip(1));
            assert(b =~= seq![b[0]] + b.skip(1));
        }
    } else if a.len() == 0 && b.len() == 0 {
        assert(a =~= b);
    }
}

proof fn foer_er_transitiv(a: Seq<u8>, b: Seq<u8>, c: Seq<u8>)
    ensures
        foer(a, b) && foer(b, c) ==> foer(a, c),
    decreases a.len(),
{
    if a.len() > 0 && b.len() > 0 && c.len() > 0 {
        foer_er_transitiv(a.skip(1), b.skip(1), c.skip(1));
    }
}

/// By what a file is ordered.
pub open spec fn nokkel_i(f: OppFil) -> Seq<u8> {
    encode_utf8(f.relativ@)
}

/// Whether no file comes before one that stands in front of it.
pub open spec fn i_orden(v: Seq<OppFil>) -> bool {
    forall|i: int, j: int|
        0 <= i < j < v.len() ==> !foer(#[trigger] nokkel_i(v[j]), #[trigger] nokkel_i(v[i]))
}

/// The files with a given key, in the order in which they stand.
pub open spec fn med_nokkel(v: Seq<OppFil>, k: Seq<u8>) -> Seq<OppFil>
    decreases v.len(),
{
    if v.len() == 0 {
        Seq::empty()
    } else if nokkel_i(v.last()) == k {
        med_nokkel(v.drop_last(), k).push(v.last())
    } else {
        med_nokkel(v.drop_last(), k)
    }
}

proof fn med_nokkel_sammen(a: Seq<OppFil>, b: Seq<OppFil>, k: Seq<u8>)
    ensures
        med_nokkel(a + b, k) == med_nokkel(a, k) + med_nokkel(b, k),
    decreases b.len(),
{
    if b.len() == 0 {
        assert(a + b =~= a);
        assert(med_nokkel(a, k) + med_nokkel(b, k) =~= med_nokkel(a, k));
    } else {
        med_nokkel_sammen(a, b.drop_last(), k);
        assert((a + b).drop_last() =~= a + b.drop_last());
        assert((a + b).last() == b.last());
        assert(med_nokkel(a + b, k) =~= med_nokkel(a, k) + med_nokkel(b, k));
    }
}

proof fn ingen_med_nokkel(v: Seq<OppFil>, k: Seq<u8>)
    requires
        forall|i: int| 0 <= i < v.len() ==> #[trigger] nokkel_i(v[i]) != k,
    ensures
        med_nokkel(v, k) == Seq::<OppFil>::empty(),
    decreases v.len(),
{
    if v.len() > 0 {
        assert(nokkel_i(v[v.len() - 1]) != k);
        assert forall|i: int| 0 <= i < v.drop_last().len() implies #[trigger] nokkel_i(
            v.drop_last()[i],
        ) != k by {
            assert(nokkel_i(v[i]) != k);
        }
        ingen_med_nokkel(v.drop_last(), k);
    }
}

/// Whether the second list is the first in order, files with the same key as they stood.
pub open spec fn er_ordnet(inn: Seq<OppFil>, ut: Seq<OppFil>) -> bool {
    &&& i_orden(ut)
    &&& forall|k: Seq<u8>| #[trigger] med_nokkel(ut, k) == med_nokkel(inn, k)
}

/// Turns a list round.
fn snu(v: Vec<OppFil>) -> (r: Vec<OppFil>)
    ensures
        r@ == v@.reverse(),
{
    let ghost hele = v@.reverse();
    let mut rest = v;
    let mut ut: Vec<OppFil> = Vec::new();
    assert(ut@ + rest@.reverse() =~= hele);
    while rest.len() > 0
        invariant
            ut@ + rest@.reverse() == hele,
        decreases rest@.len(),
    {
        let ghost r0 = rest@;
        let ghost u0 = ut@;
        match rest.pop() {
            Some(f) => {
                ut.push(f);
                assert(r0.reverse() =~= seq![f] + rest@.reverse());
                assert(ut@ + rest@.reverse() =~= u0 + r0.reverse());
            },
            None => {},
        }
    }
    assert(ut@ + rest@.reverse() =~= ut@);
    ut
}

/// What holds between the rests of two lists that are being put together and the list that
/// comes out, of which the end is already there.
spec fn flettes(inn: Seq<OppFil>, a: Seq<OppFil>, b: Seq<OppFil>, slutt: Seq<OppFil>) -> bool {
    &&& i_orden(a)
    &&& i_orden(b)
    &&& i_orden(slutt)
    &&& forall|i: int, j: int|
        0 <= i < a.len() && 0 <= j < slutt.len() ==> !foer(
            #[trigger] nokkel_i(slutt[j]),
            #[trigger] nokkel_i(a[i]),
        )
    &&& forall|i: int, j: int|
        0 <= i < b.len() && 0 <= j < slutt.len() ==> !foer(
            #[trigger] nokkel_i(slutt[j]),
            #[trigger] nokkel_i(b[i]),
        )
    &&& forall|k: Seq<u8>| #[trigger] med_nokkel(inn, k) == med_nokkel(a, k) + med_nokkel(b, k)
        + med_nokkel(slutt, k)
}

proof fn tar_fra_b(inn: Seq<OppFil>, a: Seq<OppFil>, b: Seq<OppFil>, slutt: Seq<OppFil>)
    requires
        flettes(inn, a, b, slutt),
        b.len() > 0,
        a.len() > 0 ==> !foer(nokkel_i(b.last()), nokkel_i(a.last())),
    ensures
        flettes(inn, a, b.drop_last(), seq![b.last()] + slutt),
{
    let y = b.last();
    let ny = seq![y] + slutt;
    let b1 = b.drop_last();
    assert(nokkel_i(b[b.len() - 1]) == nokkel_i(y));
    assert forall|i: int, j: int| 0 <= i < j < ny.len() implies !foer(
        #[trigger] nokkel_i(ny[j]),
        #[trigger] nokkel_i(ny[i]),
    ) by {
        if i == 0 {
            assert(ny[j] == slutt[j - 1]);
            assert(nokkel_i(slutt[j - 1]) == nokkel_i(ny[j]));
        } else {
            assert(nokkel_i(slutt[j - 1]) == nokkel_i(ny[j]));
            assert(nokkel_i(slutt[i - 1]) == nokkel_i(ny[i]));
        }
    }
    assert forall|i: int, j: int| 0 <= i < a.len() && 0 <= j < ny.len() implies !foer(
        #[trigger] nokkel_i(ny[j]),
        #[trigger] nokkel_i(a[i]),
    ) by {
        if j == 0 {
            let x = nokkel_i(a.last());
            assert(nokkel_i(a[a.len() - 1]) == x);
            foer_er_streng(x, nokkel_i(a[i]));
            foer_er_streng(nokkel_i(y), x);
            foer_er_streng(nokkel_i(y), nokkel_i(a[i]));
            foer_er_transitiv(nokkel_i(y), nokkel_i(a[i]), x);
        } else {
            assert(nokkel_i(slutt[j - 1]) == nokkel_i(ny[j]));
        }
    }
    assert forall|i: int, j: int| 0 <= i < b1.len() && 0 <= j < ny.len() implies !foer(
        #[trigger] nokkel_i(ny[j]),
        #[trigger] nokkel_i(b1[i]),
    ) by {
        assert(nokkel_i(b[i]) == nokkel_i(b1[i]));
        if j > 0 {
            assert(nokkel_i(slutt[j - 1]) == nokkel_i(ny[j]));
        }
    }
    assert(i_orden(b1)) by {
        assert forall|i: int, j: int| 0 <= i < j < b1.len() implies !foer(
            #[trigger] nokkel_i(b1[j]),
            #[trigger] nokkel_i(b1[i]),
        ) by {
            assert(nokkel_i(b[i]) == nokkel_i(b1[i]) && nokkel_i(b[j]) == nokkel_i(b1[j]));
        }
    }
    assert forall|k: Seq<u8>| #[trigger] med_nokkel(inn, k) == med_nokkel(a, k) + med_nokkel(b1, k)
        + med_nokkel(ny, k) by {
        med_nokkel_sammen(b1, seq![y], k);
        med_nokkel_sammen(seq![y], slutt, k);
        assert(b1 + seq![y] =~= b);
        assert(med_nokkel(a, k) + med_nokkel(b, k) + med_nokkel(slutt, k) =~= med_nokkel(a, k)
            + med_nokkel(b1, k) + med_nokkel(ny, k));
    }
}

proof fn tar_fra_a(inn: Seq<OppFil>, a: Seq<OppFil>, b: Seq<OppFil>, slutt: Seq<OppFil>)
    requires
        flettes(inn, a, b, slutt),
        a.len() > 0,
        b.len() > 0 ==> foer(nokkel_i(b.last()), nokkel_i(a.last())),
    ensures
        flettes(inn, a.drop_last(), b, seq![a.last()] + slutt),
{
    let x = a.last();
    let ny = seq![x] + slutt;
    let a1 = a.drop_last();
    assert(nokkel_i(a[a.len() - 1]) == nokkel_i(x));
    assert forall|i: int, j: int| 0 <= i < j < ny.len() implies !foer(
        #[trigger] nokkel_i(ny[j]),
        #[trigger] nokkel_i(ny[i]),
    ) by {
        if i == 0 {
            assert(nokkel_i(slutt[j - 1]) == nokkel_i(ny[j]));
        } else {
            assert(nokkel_i(slutt[j - 1]) == nokkel_i(ny[j]));
            assert(nokkel_i(slutt[i - 1]) == nokkel_i(ny[i]));
        }
    }
    assert forall|i: int| 0 <= i < b.len() implies foer(#[trigger] nokkel_i(b[i]), nokkel_i(x)) by {
        let y = nokkel_i(b.last());
        assert(nokkel_i(b[b.len() - 1]) == y);
        foer_er_streng(y, nokkel_i(b[i]));
        foer_er_transitiv(nokkel_i(b[i]), y, nokkel_i(x));
    }
    assert forall|i: int, j: int| 0 <= i < b.len() && 0 <= j < ny.len() implies !foer(
        #[trigger] nokkel_i(ny[j]),
        #[trigger] nokkel_i(b[i]),
    ) by {
        if j == 0 {
            foer_er_streng(nokkel_i(b[i]), nokkel_i(x));
        } else {
            assert(nokkel_i(slutt[j - 1]) == nokkel_i(ny[j]));
        }
    }
    assert forall|i: int, j: int| 0 <= i < a1.len() && 0 <= j < ny.len() implies !foer(
        #[trigger] nokkel_i(ny[j]),
        #[trigger] nokkel_i(a1[i]),
    ) by {
        assert(nokkel_i(a[i]) == nokkel_i(a1[i]));
        if j > 0 {
            assert(nokkel_i(slutt[j - 1]) == nokkel_i(ny[j]));
        }
    }
    assert(i_orden(a1)) by {
        assert forall|i: int, j: int| 0 <= i < j < a1.len() implies !foer(
            #[trigger] nokkel_i(a1[j]),
            #[trigger] nokkel_i(a1[i]),
        ) by {
            assert(nokkel_i(a[i]) == nokkel_i(a1[i]) && nokkel_i(a[j]) == nokkel_i(a1[j]));
        }
    }
    assert forall|k: Seq<u8>| #[trigger] med_nokkel(inn, k) == med_nokkel(a1, k) + med_nokkel(b, k)
        + med_nokkel(ny, k) by {
        med_nokkel_sammen(a1, seq![x], k);
        med_nokkel_sammen(seq![x], slutt, k);
        assert(a1 + seq![x] =~= a);
        if nokkel_i(x) == k {
            assert forall|i: int| 0 <= i < b.len() implies #[trigger] nokkel_i(b[i]) != k by {
                foer_er_streng(nokkel_i(b[i]), nokkel_i(x));
            }
            ingen_med_nokkel(b, k);
        } else {
            let en = seq![x];
            assert(en.drop_last() =~= Seq::<OppFil>::empty());
            assert(med_nokkel(en, k) =~= Seq::<OppFil>::empty());
        }
        assert(med_nokkel(a, k) + med_nokkel(b, k) + med_nokkel(slutt, k) =~= med_nokkel(a1, k)
            + med_nokkel(b, k) + med_nokkel(ny, k));
    }
}

/// Puts two lists that are in order together.
fn flett(a: Vec<OppFil>, b: Vec<OppFil>) -> (r: Vec<OppFil>)
    requires
        i_orden(a@),
        i_orden(b@),
    ensures
        er_ordnet(a@ + b@, r@),
{
    let ghost inn = a@ + b@;
    let ghost mut slutt: Seq<OppFil> = Seq::empty();
    let mut a = a;
    let mut b = b;
    let mut bak: Vec<OppFil> = Vec::new();
    proof {
        assert forall|k: Seq<u8>| #[trigger] med_nokkel(inn, k) == med_nokkel(a@, k) + med_nokkel(
            b@,
            k,
        ) + med_nokkel(slutt, k) by {
            med_nokkel_sammen(a@, b@, k);
            assert(med_nokkel(a@, k) + med_nokkel(b@, k) + med_nokkel(slutt, k) =~= med_nokkel(
                a@,
                k,
            ) + med_nokkel(b@, k));
        }
        assert(bak@ =~= slutt.reverse());
    }
    while a.len() > 0 || b.len() > 0
        invariant
            flettes(inn, a@, b@, slutt),
            bak@ == slutt.reverse(),
        decreases a@.len() + b@.len(),
    {
        let n: usize = a.len();
        let m: usize = b.len();
        let fra_b = m > 0 && (n == 0 || !kommer_foer(
            b[m - 1].relativ.as_str(),
            a[n - 1].relativ.as_str(),
        ));
        let ghost a0 = a@;
        let ghost b0 = b@;
        let ghost s0 = slutt;
        let neste = if fra_b {
            b.pop()
        } else {
            a.pop()
        };
        match neste {
            Some(f) => {
                proof {
                    if fra_b {
                        tar_fra_b(inn, a0, b0, s0);
                        assert(b@ =~= b0.drop_last());
                    } else {
                        tar_fra_a(inn, a0, b0, s0);
                        assert(a@ =~= a0.drop_last());
                    }
                    slutt = seq![f] + s0;
                }
                bak.push(f);
                assert(bak@ =~= slutt.reverse());
            },
            None => {},
        }
    }
    proof {
        assert forall|k: Seq<u8>| #[trigger] med_nokkel(slutt, k) == med_nokkel(inn, k) by {
            assert(med_nokkel(inn, k) == med_nokkel(a@, k) + med_nokkel(b@, k) + med_nokkel(
                slutt,
                k,
            ));
            assert(med_nokkel(inn, k) =~= med_nokkel(slutt, k));
        }
        assert(slutt.reverse().reverse() =~= slutt);
    }
    snu(bak)
}

/// Puts files in the order of their paths; files with the same path stay as they stand.
pub fn ordne(filer: Vec<OppFil>) -> (r: Vec<OppFil>)
    ensures
        er_ordnet(filer@, r@),
    decreases filer@.len(),
{
    if filer.len() < 2 {
        return filer;
    }
    let ghost inn = filer@;
    let mut foran = filer;
    let midt: usize = foran.len() / 2;
    let bak = foran.split_off(midt);
    assert(inn =~= foran@ + bak@);
    let ghost f = foran@;
    let ghost b = bak@;
    let a = ordne(foran);
    let c = ordne(bak);
    let r = flett(a, c);
    proof {
        assert forall|k: Seq<u8>| #[trigger] med_nokkel(r@, k) == med_nokkel(inn, k) by {
            med_nokkel_sammen(f, b, k);
            med_nokkel_sammen(a@, c@, k);
            assert(med_nokkel(r@, k) == med_nokkel(a@ + c@, k));
            assert(med_nokkel(a@, k) == med_nokkel(f, k));
            assert(med_nokkel(c@, k) == med_nokkel(b, k));
        }
    }
    r
}

proof fn noen_med_nokkel(v: Seq<OppFil>, k: Seq<u8>) -> (i: int)
    requires
        med_nokkel(v, k).len() > 0,
    ensures
        0 <= i < v.len(),
        nokkel_i(v[i]) == k,
    decreases v.len(),
{
    if nokkel_i(v.last()) == k {
        v.len() - 1
    } else {
        noen_med_nokkel(v.drop_last(), k)
    }
}

/// There is only one order: two lists of the same files that are both in order, files with
/// the same path as they stood, are the same list.
pub proof fn bare_en_orden(a: Seq<OppFil>, b: Seq<OppFil>)
    requires
        i_orden(a),
        er_ordnet(a, b),
    ensures
        a == b,
    decreases a.len(),
{
    if a.len() == 0 {
        if b.len() > 0 {
            assert(med_nokkel(b, nokkel_i(b.last())).len() > 0);
        }
        assert(a =~= b);
    } else {
        let k = nokkel_i(a.last());
        assert(med_nokkel(b, k) == med_nokkel(a, k));
        let i = noen_med_nokkel(b, k);
        let kb = nokkel_i(b.last());
        assert(med_nokkel(b, kb) == med_nokkel(a, kb));
        let j = noen_med_nokkel(a, kb);
        assert(nokkel_i(a[a.len() - 1]) == k && nokkel_i(b[b.len() - 1]) == kb);
        assert(nokkel_i(b[i]) == k && nokkel_i(a[j]) == kb);
        foer_er_streng(k, kb);
        assert(k == kb);
        assert(med_nokkel(a, k).last() == a.last());
        assert(med_nokkel(b, k).last() == b.last());
        let a1 = a.drop_last();
        let b1 = b.drop_last();
        assert forall|q: Seq<u8>| #[trigger] med_nokkel(b1, q) == med_nokkel(a1, q) by {
            assert(med_nokkel(b, q) == med_nokkel(a, q));
            if q == k {
                assert(med_nokkel(a, q).drop_last() =~= med_nokkel(a1, q));
                assert(med_nokkel(b, q).drop_last() =~= med_nokkel(b1, q));
            }
        }
        assert forall|x: int, y: int| 0 <= x < y < a1.len() implies !foer(
            #[trigger] nokkel_i(a1[y]),
            #[trigger] nokkel_i(a1[x]),
        ) by {
            assert(nokkel_i(a[x]) == nokkel_i(a1[x]) && nokkel_i(a[y]) == nokkel_i(a1[y]));
        }
        assert forall|x: int, y: int| 0 <= x < y < b1.len() implies !foer(
            #[trigger] nokkel_i(b1[y]),
            #[trigger] nokkel_i(b1[x]),
        ) by {
            assert(nokkel_i(b[x]) == nokkel_i(b1[x]) && nokkel_i(b[y]) == nokkel_i(b1[y]));
        }
        bare_en_orden(a1, b1);
        assert(a =~= a1.push(a.last()));
        assert(b =~= b1.push(b.last()));
    }
}

/// An entry of a folder.
#[derive(Debug)]
pub struct Oppforing {
    pub navn: String,
    /// Where it is on the disk.
    pub sti: String,
    /// Whether it is a folder.
    pub mappe: bool,
    pub bytes: u64,
}

/// What an entry of a folder is.
pub struct Innslag {
    pub navn: Seq<char>,
    pub sti: Seq<char>,
    pub mappe: bool,
    pub bytes: u64,
}

impl View for Oppforing {
    type V = Innslag;

    open spec fn view(&self) -> Innslag {
        Innslag {
            navn: self.navn@,
            sti: self.sti@,
            mappe: self.mappe,
            bytes: self.bytes,
        }
    }
}

/// The path of an entry from the folder that is walked through: the names of the folders on
/// the way to it, and its own.
pub open spec fn relativ_av(mappe: Seq<Seq<char>>, navn: Seq<char>) -> Seq<char> {
    byttet(sti_av(mappe.push(navn)), seq!['\\'], '/')
}

/// A file that is found in a folder: where it is, its path and its size.
pub open spec fn fil_av(mappe: Seq<Seq<char>>, e: Innslag) -> (Seq<char>, Seq<char>, u64) {
    (e.sti, relativ_av(mappe, e.navn), e.bytes)
}

/// How far a walk has come: the folders that are still to be read, the folder that is being
/// read, and the files that have been found. A folder is the names on the way to it.
#[verifier::ext_equal]
pub struct Gang {
    pub stakk: Seq<Seq<Seq<char>>>,
    pub her: Seq<Seq<char>>,
    pub filer: Seq<(Seq<char>, Seq<char>, u64)>,
}

/// The beginning of a walk: the folder itself is to be read.
pub open spec fn gangens_start() -> Gang {
    Gang { stakk: seq![Seq::empty()], her: Seq::empty(), filer: Seq::empty() }
}

/// The walk when the next folder is begun: the one that was found last.
pub open spec fn videre(g: Gang) -> Gang {
    if g.stakk.len() == 0 {
        g
    } else {
        Gang { stakk: g.stakk.drop_last(), her: g.stakk.last(), filer: g.filer }
    }
}

/// The walk after an entry of the present folder: what is left out is passed over, a folder
/// is to be read too, and a file is found.
pub open spec fn etter_oppforing(g: Gang, e: Innslag) -> Gang {
    if utelatt(e.navn) {
        g
    } else if e.mappe {
        Gang { stakk: g.stakk.push(g.her.push(e.navn)), her: g.her, filer: g.filer }
    } else {
        Gang { stakk: g.stakk, her: g.her, filer: g.filer.push(fil_av(g.her, e)) }
    }
}

/// A walk through a folder.
#[derive(Debug)]
pub struct Vandring {
    pub stakk: Vec<Vec<String>>,
    pub her: Vec<String>,
    pub filer: Vec<OppFil>,
}

/// The names on the way to each folder of a list.
pub open spec fn mappene(v: Seq<Vec<String>>) -> Seq<Seq<Seq<char>>> {
    v.map_values(|m: Vec<String>| tekster(m@))
}

/// The files of a list: where each is, its path and its size.
pub open spec fn funnene(v: Seq<OppFil>) -> Seq<(Seq<char>, Seq<char>, u64)> {
    v.map_values(|f: OppFil| (f.sti@, f.relativ@, f.bytes))
}

impl View for Vandring {
    type V = Gang;

    open spec fn view(&self) -> Gang {
        Gang {
            stakk: mappene(self.stakk@),
            her: tekster(self.her@),
            filer: funnene(self.filer@),
        }
    }
}

/// The names on the way to a folder in the present one.
fn navn_til(her: &Vec<String>, navn: &str) -> (r: Vec<String>)
    ensures
        tekster(r@) == tekster(her@).push(navn@),
{
    let mut ut: Vec<String> = Vec::new();
    let mut i: usize = 0;
    while i < her.len()
        invariant
            i <= her@.len(),
            tekster(ut@) == tekster(her@).take(i as int),
        decreases her@.len() - i,
    {
        let ghost foer = ut@;
        let n = her[i].clone();
        ut.push(n);
        assert(tekster(ut@) =~= tekster(foer).push(n@));
        i += 1;
        assert(tekster(ut@) =~= tekster(her@).take(i as int));
    }
    let ghost foer = ut@;
    let n = navn.to_owned();
    ut.push(n);
    assert(tekster(foer) =~= tekster(her@));
    assert(tekster(ut@) =~= tekster(foer).push(n@));
    ut
}

/// The path of an entry of the present folder.
fn relativ_til(her: &Vec<String>, navn: &str) -> (r: String)
    ensures
        r@ == relativ_av(tekster(her@), navn@),
{
    let alle = navn_til(her, navn);
    let ghost t = tekster(alle@);
    assert(alle@.len() == t.len() && t.len() == her@.len() + 1);
    let mut ut = alle[0].clone();
    let mut i: usize = 1;
    assert(t.take(1)[0] == alle@[0]@);
    while i < alle.len()
        invariant
            t == tekster(alle@),
            1 <= i <= alle@.len(),
            ut@ == sti_av(t.take(i as int)),
        decreases alle@.len() - i,
    {
        ut.append("/");
        ut.append(alle[i].as_str());
        assert(t.take(i + 1).drop_last() =~= t.take(i as int));
        assert(t.take(i + 1).last() == alle@[i as int]@);
        i += 1;
    }
    assert(t.take(i as int) =~= t);
    med_skraastrek(ut.as_str())
}

impl Vandring {
    /// The walk begins with the folder itself.
    pub fn ny() -> (r: Vandring)
        ensures
            r@ == gangens_start(),
    {
        let mut stakk: Vec<Vec<String>> = Vec::new();
        let rot: Vec<String> = Vec::new();
        assert(tekster(rot@) =~= Seq::empty());
        stakk.push(rot);
        let r = Vandring { stakk, her: Vec::new(), filer: Vec::new() };
        assert(r@ =~~= gangens_start());
        r
    }

    /// Begins the next folder, where there is one.
    pub fn neste(&mut self) -> (r: bool)
        ensures
            final(self)@ == videre(old(self)@),
            r == (old(self)@.stakk.len() > 0),
    {
        let ghost foer = self@;
        match self.stakk.pop() {
            Some(m) => {
                self.her = m;
                assert(self@.stakk =~= foer.stakk.drop_last());
                true
            },
            None => false,
        }
    }

    /// Takes an entry of the present folder; gives whether it is a folder that is to be read
    /// too.
    pub fn fant(&mut self, e: Oppforing) -> (r: bool)
        ensures
            final(self)@ == etter_oppforing(old(self)@, e@),
            r == (e.mappe && !utelatt(e.navn@)),
    {
        let ghost foer = self@;
        if er_utelatt(e.navn.as_str()) {
            return false;
        }
        if e.mappe {
            let m = navn_til(&self.her, e.navn.as_str());
            self.stakk.push(m);
            assert(self@.stakk =~= foer.stakk.push(foer.her.push(e.navn@)));
            true
        } else {
            let relativ = relativ_til(&self.her, e.navn.as_str());
            self.filer.push(OppFil { sti: e.sti, relativ, bytes: e.bytes });
            assert(self@.filer =~= foer.filer.push(fil_av(foer.her, e@)));
            false
        }
    }

    /// The files that were found, in order.
    pub fn ferdig(self) -> (r: Vec<OppFil>)
        ensures
            er_ordnet(self.filer@, r@),
    {
        ordne(self.filer)
    }
}

/// The walk after some entries of the present folder.
pub open spec fn etter_oppforinger(g: Gang, innhold: Seq<Innslag>) -> Gang
    decreases innhold.len(),
{
    if innhold.len() == 0 {
        g
    } else {
        etter_oppforing(etter_oppforinger(g, innhold.drop_last()), innhold.last())
    }
}

/// The walk when `n` folders have been read. `disk` gives the entries of each folder.
pub open spec fn vandret(disk: spec_fn(Seq<Seq<char>>) -> Seq<Innslag>, n: nat) -> Gang
    decreases n,
{
    if n == 0 {
        gangens_start()
    } else {
        let g = vandret(disk, (n - 1) as nat);
        if g.stakk.len() == 0 {
            g
        } else {
            etter_oppforinger(videre(g), disk(videre(g).her))
        }
    }
}

/// Whether these names lead to a folder.
pub open spec fn er_mappe_paa(
    disk: spec_fn(Seq<Seq<char>>) -> Seq<Innslag>,
    mappe: Seq<Seq<char>>,
) -> bool
    decreases mappe.len(),
{
    mappe.len() > 0 ==> {
        &&& er_mappe_paa(disk, mappe.drop_last())
        &&& exists|e: Innslag| #[trigger]
            disk(mappe.drop_last()).contains(e) && e.mappe && e.navn == mappe.last()
    }
}

/// Whether none of these names is left out.
pub open spec fn ingen_utelatt(navn: Seq<Seq<char>>) -> bool {
    forall|i: int| 0 <= i < navn.len() ==> !utelatt(#[trigger] navn[i])
}

/// Whether this is a file in that folder.
pub open spec fn er_fil_i(
    disk: spec_fn(Seq<Seq<char>>) -> Seq<Innslag>,
    mappe: Seq<Seq<char>>,
    e: Innslag,
) -> bool {
    er_mappe_paa(disk, mappe) && disk(mappe).contains(e) && !e.mappe
}

/// The folders that have been read when `n` have.
spec fn lest(disk: spec_fn(Seq<Seq<char>>) -> Seq<Innslag>, n: nat) -> Seq<Seq<Seq<char>>>
    decreases n,
{
    if n == 0 {
        Seq::empty()
    } else {
        let g = vandret(disk, (n - 1) as nat);
        if g.stakk.len() == 0 {
            lest(disk, (n - 1) as nat)
        } else {
            lest(disk, (n - 1) as nat).push(g.stakk.last())
        }
    }
}

/// Whether this folder is to be read for the entry that leads to it.
spec fn leder_til(innhold: Seq<Innslag>, her: Seq<Seq<char>>, mappe: Seq<Seq<char>>) -> bool {
    exists|e: Innslag| #[trigger]
        innhold.contains(e) && e.mappe && !utelatt(e.navn) && mappe == her.push(e.navn)
}

/// Whether this is a file among these entries.
spec fn er_funnet(
    innhold: Seq<Innslag>,
    her: Seq<Seq<char>>,
    x: (Seq<char>, Seq<char>, u64),
) -> bool {
    exists|e: Innslag| #[trigger]
        innhold.contains(e) && !e.mappe && !utelatt(e.navn) && x == fil_av(her, e)
}

proof fn en_til<A>(v: Seq<A>, a: A, x: A)
    ensures
        v.push(a).contains(x) <==> v.contains(x) || x == a,
{
    let w = v.push(a);
    if v.contains(x) {
        let i = choose|i: int| 0 <= i < v.len() && v[i] == x;
        assert(w[i] == x);
    }
    assert(w[v.len() as int] == a);
    if w.contains(x) && x != a {
        let i = choose|i: int| 0 <= i < w.len() && w[i] == x;
        assert(v[i] == x);
    }
}

/// What the entries of a folder do to a walk.
proof fn mappa_leses(g: Gang, innhold: Seq<Innslag>)
    ensures
        etter_oppforinger(g, innhold).her == g.her,
        forall|m: Seq<Seq<char>>| #[trigger]
            etter_oppforinger(g, innhold).stakk.contains(m) <==> g.stakk.contains(m) || leder_til(
                innhold,
                g.her,
                m,
            ),
        forall|x: (Seq<char>, Seq<char>, u64)| #[trigger]
            etter_oppforinger(g, innhold).filer.contains(x) <==> g.filer.contains(x) || er_funnet(
                innhold,
                g.her,
                x,
            ),
    decreases innhold.len(),
{
    let ut = etter_oppforinger(g, innhold);
    if innhold.len() > 0 {
        let foran = innhold.drop_last();
        let e = innhold.last();
        let midt = etter_oppforinger(g, foran);
        mappa_leses(g, foran);
        assert(innhold =~= foran.push(e));
        assert forall|m: Seq<Seq<char>>| #[trigger] ut.stakk.contains(m) <==> g.stakk.contains(m)
            || leder_til(innhold, g.her, m) by {
            en_til(midt.stakk, g.her.push(e.navn), m);
            en_til(foran, e, e);
            if leder_til(foran, g.her, m) {
                let d = choose|d: Innslag| #[trigger]
                    foran.contains(d) && d.mappe && !utelatt(d.navn) && m == g.her.push(d.navn);
                en_til(foran, e, d);
                assert(innhold.contains(d));
            }
            if leder_til(innhold, g.her, m) {
                let d = choose|d: Innslag| #[trigger]
                    innhold.contains(d) && d.mappe && !utelatt(d.navn) && m == g.her.push(d.navn);
                en_til(foran, e, d);
            }
            assert(midt.stakk.contains(m) <==> g.stakk.contains(m) || leder_til(foran, g.her, m));
        }
        assert forall|x: (Seq<char>, Seq<char>, u64)| #[trigger]
            ut.filer.contains(x) <==> g.filer.contains(x) || er_funnet(innhold, g.her, x) by {
            en_til(midt.filer, fil_av(g.her, e), x);
            en_til(foran, e, e);
            if er_funnet(foran, g.her, x) {
                let d = choose|d: Innslag| #[trigger]
                    foran.contains(d) && !d.mappe && !utelatt(d.navn) && x == fil_av(g.her, d);
                en_til(foran, e, d);
                assert(innhold.contains(d));
            }
            if er_funnet(innhold, g.her, x) {
                let d = choose|d: Innslag| #[trigger]
                    innhold.contains(d) && !d.mappe && !utelatt(d.navn) && x == fil_av(g.her, d);
                en_til(foran, e, d);
            }
            assert(midt.filer.contains(x) <==> g.filer.contains(x) || er_funnet(foran, g.her, x));
        }
    }
}

/// Whether a folder has been read, or is still to be.
spec fn kjent_mappe(
    disk: spec_fn(Seq<Seq<char>>) -> Seq<Innslag>,
    n: nat,
    mappe: Seq<Seq<char>>,
) -> bool {
    lest(disk, n).contains(mappe) || vandret(disk, n).stakk.contains(mappe)
}

/// Whether this is a file of a folder that has been read.
spec fn funnet_i_lest(
    disk: spec_fn(Seq<Seq<char>>) -> Seq<Innslag>,
    n: nat,
    x: (Seq<char>, Seq<char>, u64),
) -> bool {
    exists|m: Seq<Seq<char>>| #[trigger] lest(disk, n).contains(m) && er_funnet(disk(m), m, x)
}

/// What holds of a walk at all times.
spec fn gangen_stemmer(disk: spec_fn(Seq<Seq<char>>) -> Seq<Innslag>, n: nat) -> bool {
    &&& kjent_mappe(disk, n, Seq::empty())
    &&& forall|m: Seq<Seq<char>>| #[trigger]
        kjent_mappe(disk, n, m) ==> er_mappe_paa(disk, m) && ingen_utelatt(m)
    &&& forall|m: Seq<Seq<char>>, d: Seq<Seq<char>>| #[trigger]
        lest(disk, n).contains(m) && #[trigger] leder_til(disk(m), m, d) ==> kjent_mappe(
            disk,
            n,
            d,
        )
    &&& forall|x: (Seq<char>, Seq<char>, u64)| #[trigger]
        vandret(disk, n).filer.contains(x) <==> funnet_i_lest(disk, n, x)
}

proof fn gangen_stemmer_alltid(disk: spec_fn(Seq<Seq<char>>) -> Seq<Innslag>, n: nat)
    ensures
        gangen_stemmer(disk, n),
    decreases n,
{
    let tom = Seq::<Seq<char>>::empty();
    if n == 0 {
        let g = gangens_start();
        assert(g.stakk[0] == tom);
        assert(g.stakk.contains(tom));
    } else {
        let k = (n - 1) as nat;
        gangen_stemmer_alltid(disk, k);
        let g = vandret(disk, k);
        if g.stakk.len() > 0 {
            let her = g.stakk.last();
            let v = videre(g);
            let ut = vandret(disk, n);
            mappa_leses(v, disk(her));
            assert(g.stakk =~= v.stakk.push(her));
            assert forall|m: Seq<Seq<char>>|
                #![trigger kjent_mappe(disk, n, m)]
                kjent_mappe(disk, n, m) <==> kjent_mappe(disk, k, m) || leder_til(
                disk(her),
                her,
                m,
            ) by {
                en_til(lest(disk, k), her, m);
                en_til(v.stakk, her, m);
                assert(ut.stakk.contains(m) <==> v.stakk.contains(m) || leder_til(
                    disk(her),
                    her,
                    m,
                ));
            }
            assert(kjent_mappe(disk, k, tom));
            assert(kjent_mappe(disk, k, her)) by {
                en_til(v.stakk, her, her);
            }
            assert forall|m: Seq<Seq<char>>| #[trigger] kjent_mappe(disk, n, m) implies
                er_mappe_paa(disk, m) && ingen_utelatt(m) by {
                if !kjent_mappe(disk, k, m) {
                    let e = choose|e: Innslag| #[trigger]
                        disk(her).contains(e) && e.mappe && !utelatt(e.navn) && m == her.push(
                            e.navn,
                        );
                    assert(m.drop_last() =~= her);
                    assert(m.last() == e.navn);
                    assert(er_mappe_paa(disk, her) && ingen_utelatt(her));
                    assert(disk(m.drop_last()).contains(e));
                    assert forall|i: int| 0 <= i < m.len() implies !utelatt(#[trigger] m[i]) by {
                        if i < her.len() {
                            assert(m[i] == her[i]);
                        }
                    }
                }
            }
            assert forall|m: Seq<Seq<char>>, d: Seq<Seq<char>>| #[trigger]
                lest(disk, n).contains(m) && #[trigger] leder_til(disk(m), m, d) implies
                kjent_mappe(disk, n, d) by {
                en_til(lest(disk, k), her, m);
                if m != her {
                    assert(lest(disk, k).contains(m));
                    assert(kjent_mappe(disk, k, d));
                }
            }
            assert forall|x: (Seq<char>, Seq<char>, u64)| #[trigger] ut.filer.contains(x)
                <==> funnet_i_lest(disk, n, x) by {
                assert(ut.filer.contains(x) <==> g.filer.contains(x) || er_funnet(
                    disk(her),
                    her,
                    x,
                ));
                assert(g.filer.contains(x) <==> funnet_i_lest(disk, k, x));
                en_til(lest(disk, k), her, her);
                if funnet_i_lest(disk, k, x) {
                    let m = choose|m: Seq<Seq<char>>| #[trigger]
                        lest(disk, k).contains(m) && er_funnet(disk(m), m, x);
                    en_til(lest(disk, k), her, m);
                    assert(lest(disk, n).contains(m));
                }
                if funnet_i_lest(disk, n, x) {
                    let m = choose|m: Seq<Seq<char>>| #[trigger]
                        lest(disk, n).contains(m) && er_funnet(disk(m), m, x);
                    en_til(lest(disk, k), her, m);
                    if m != her {
                        assert(lest(disk, k).contains(m));
                    }
                }
                assert(lest(disk, n).contains(her));
            }
        } else {
            assert forall|m: Seq<Seq<char>>| #[trigger] kjent_mappe(disk, n, m) implies
                er_mappe_paa(disk, m) && ingen_utelatt(m) by {
                assert(kjent_mappe(disk, k, m));
            }
            assert(kjent_mappe(disk, k, tom));
            assert forall|m: Seq<Seq<char>>, d: Seq<Seq<char>>| #[trigger]
                lest(disk, n).contains(m) && #[trigger] leder_til(disk(m), m, d) implies
                kjent_mappe(disk, n, d) by {
                assert(lest(disk, k).contains(m));
                assert(kjent_mappe(disk, k, d));
            }
            assert forall|x: (Seq<char>, Seq<char>, u64)| #[trigger]
                vandret(disk, n).filer.contains(x) <==> funnet_i_lest(disk, n, x) by {
                assert(vandret(disk, k).filer.contains(x) <==> funnet_i_lest(disk, k, x));
                assert(lest(disk, n) == lest(disk, k));
            }
        }
    }
}

/// When nothing is left to read, every folder that counts has been read.
proof fn alle_mapper_leses(
    disk: spec_fn(Seq<Seq<char>>) -> Seq<Innslag>,
    n: nat,
    mappe: Seq<Seq<char>>,
)
    requires
        vandret(disk, n).stakk.len() == 0,
        er_mappe_paa(disk, mappe),
        ingen_utelatt(mappe),
    ensures
        lest(disk, n).contains(mappe),
    decreases mappe.len(),
{
    gangen_stemmer_alltid(disk, n);
    if mappe.len() == 0 {
        assert(mappe =~= Seq::<Seq<char>>::empty());
        assert(kjent_mappe(disk, n, mappe));
    } else {
        let foran = mappe.drop_last();
        assert forall|i: int| 0 <= i < foran.len() implies !utelatt(#[trigger] foran[i]) by {
            assert(foran[i] == mappe[i]);
        }
        alle_mapper_leses(disk, n, foran);
        let e = choose|e: Innslag| #[trigger]
            disk(foran).contains(e) && e.mappe && e.navn == mappe.last();
        assert(!utelatt(mappe[mappe.len() - 1]));
        assert(mappe =~= foran.push(e.navn));
        assert(disk(foran).contains(e));
        assert(leder_til(disk(foran), foran, mappe));
        assert(kjent_mappe(disk, n, mappe));
    }
}

/// A walk that has nothing left to read has found exactly the files of which neither the
/// name nor that of a folder on the way to them is left out.
pub proof fn vandringen_finner_filene(
    disk: spec_fn(Seq<Seq<char>>) -> Seq<Innslag>,
    n: nat,
    x: (Seq<char>, Seq<char>, u64),
)
    requires
        vandret(disk, n).stakk.len() == 0,
    ensures
        vandret(disk, n).filer.contains(x) <==> exists|mappe: Seq<Seq<char>>, e: Innslag| #[trigger]
            er_fil_i(disk, mappe, e) && ingen_utelatt(mappe.push(e.navn)) && x == fil_av(mappe, e),
{
    gangen_stemmer_alltid(disk, n);
    assert(vandret(disk, n).filer.contains(x) <==> funnet_i_lest(disk, n, x));
    if funnet_i_lest(disk, n, x) {
        let m = choose|m: Seq<Seq<char>>| #[trigger]
            lest(disk, n).contains(m) && er_funnet(disk(m), m, x);
        let e = choose|e: Innslag| #[trigger]
            disk(m).contains(e) && !e.mappe && !utelatt(e.navn) && x == fil_av(m, e);
        assert(kjent_mappe(disk, n, m));
        let hele = m.push(e.navn);
        assert forall|i: int| 0 <= i < hele.len() implies !utelatt(#[trigger] hele[i]) by {
            if i < m.len() {
                assert(hele[i] == m[i]);
            }
        }
        assert(er_fil_i(disk, m, e));
    }
    if exists|mappe: Seq<Seq<char>>, e: Innslag| #[trigger]
        er_fil_i(disk, mappe, e) && ingen_utelatt(mappe.push(e.navn)) && x == fil_av(mappe, e) {
        let (m, e) = choose|mappe: Seq<Seq<char>>, e: Innslag| #[trigger]
            er_fil_i(disk, mappe, e) && ingen_utelatt(mappe.push(e.navn)) && x == fil_av(mappe, e);
        let hele = m.push(e.navn);
        assert forall|i: int| 0 <= i < m.len() implies !utelatt(#[trigger] m[i]) by {
            assert(hele[i] == m[i]);
        }
        assert(!utelatt(hele[m.len() as int]));
        alle_mapper_leses(disk, n, m);
        assert(disk(m).contains(e));
        assert(er_funnet(disk(m), m, x));
    }
}

/// What is left out is what begins with a full stop, and what ends as an unfinished download
/// or a log does, and nothing else.
pub proof fn hva_som_utelates(navn: Seq<char>)
    ensures
        utelatt(seq!['.'] + navn),
        utelatt(navn + ".part"@),
        utelatt(navn + ".log"@),
        utelatt(navn) ==> navn[0] == '.' || har_suffiks(navn, ".part"@) || har_suffiks(
            navn,
            ".log"@,
        ),
        utelatt(navn) ==> navn.len() > 0,
{
    reveal_strlit(".");
    reveal_strlit(".part");
    reveal_strlit(".log");
    let a = seq!['.'] + navn;
    assert(a.take(1) =~= "."@);
    let b = navn + ".part"@;
    assert(b.skip(b.len() - 5) =~= ".part"@);
    let c = navn + ".log"@;
    assert(c.skip(c.len() - 4) =~= ".log"@);
    if har_prefiks(navn, "."@) {
        assert(navn.take(1)[0] == '.');
    }
}

/// One text comes before another exactly where it is the beginning of the other, or has the
/// smaller byte at the first place in which they differ. The place is given.
pub proof fn rekkefolgen_er_byte_for_byte(a: Seq<u8>, b: Seq<u8>) -> (k: int)
    ensures
        0 <= k <= a.len(),
        k <= b.len(),
        a.take(k) == b.take(k),
        k < a.len() && k < b.len() ==> a[k] != b[k],
        k == a.len() || k == b.len() || a[k] != b[k],
        foer(a, b) <==> k < b.len() && (k == a.len() || a[k] < b[k]),
    decreases a.len(),
{
    if a.len() == 0 || b.len() == 0 || a[0] != b[0] {
        assert(a.take(0) =~= b.take(0));
        0
    } else {
        let x = a.skip(1);
        let y = b.skip(1);
        let k = rekkefolgen_er_byte_for_byte(x, y);
        assert forall|i: int| 0 <= i < k + 1 implies a[i] == b[i] by {
            if i > 0 {
                assert(x.take(k)[i - 1] == y.take(k)[i - 1]);
            }
        }
        assert(a.take(k + 1) =~= b.take(k + 1));
        k + 1
    }
}

/// Files that are put in order are the same files, each as often as before.
pub proof fn ordnede_filer_er_de_samme(inn: Seq<OppFil>, ut: Seq<OppFil>, f: OppFil)
    requires
        er_ordnet(inn, ut),
    ensures
        inn.contains(f) <==> ut.contains(f),
        inn.filter(|g: OppFil| g == f).len() == ut.filter(|g: OppFil| g == f).len(),
{
    let k = nokkel_i(f);
    assert(med_nokkel(ut, k) == med_nokkel(inn, k));
    like_mange(inn, f);
    like_mange(ut, f);
    har_om_noen(inn, f);
    har_om_noen(ut, f);
}

proof fn like_mange(v: Seq<OppFil>, f: OppFil)
    ensures
        v.filter(|g: OppFil| g == f) == med_nokkel(v, nokkel_i(f)).filter(|g: OppFil| g == f),
    decreases v.len(),
{
    reveal(Seq::filter);
    let p = |g: OppFil| g == f;
    let k = nokkel_i(f);
    if v.len() > 0 {
        like_mange(v.drop_last(), f);
        if nokkel_i(v.last()) == k {
            let m = med_nokkel(v.drop_last(), k);
            assert(m.push(v.last()).drop_last() =~= m);
        }
    }
}

proof fn har_om_noen(v: Seq<OppFil>, f: OppFil)
    ensures
        v.contains(f) <==> v.filter(|g: OppFil| g == f).len() > 0,
    decreases v.len(),
{
    reveal(Seq::filter);
    if v.len() > 0 {
        let d = v.drop_last();
        har_om_noen(d, f);
        if v.contains(f) {
            let i = choose|i: int| 0 <= i < v.len() && v[i] == f;
            if i < d.len() {
                assert(d[i] == f);
            }
        }
        if d.contains(f) {
            let i = choose|i: int| 0 <= i < d.len() && d[i] == f;
            assert(v[i] == f);
        }
        if v.last() == f {
            assert(v[v.len() - 1] == f);
        }
    }
}

/// The path of a file tells of the folders on the way to it and of its name, where these hold
/// neither a slash nor a backslash.
pub proof fn relativ_sti_leses(mappe: Seq<Seq<char>>, navn: Seq<char>)
    requires
        er_navn(mappe.push(navn)),
        !sti_av(mappe.push(navn)).contains('\\'),
    ensures
        mappenavn(relativ_av(mappe, navn)) == mappe.push(navn),
{
    let s = sti_av(mappe.push(navn));
    let fra = seq!['\\'];
    assert(byttet(s, fra, '/') =~= s) by {
        assert forall|i: int| 0 <= i < s.len() implies byttet(s, fra, '/')[i] == #[trigger] s[i] by {
            if fra.contains(s[i]) {
                assert(s.contains('\\'));
            }
        }
    }
    stien_leses_som_skrevet(mappe.push(navn));
}

/// A file that is found keeps its size and its place on the disk, and its path ends in its
/// name; in the topmost folder the path is the name.
pub proof fn funnet_fil_er_fila(mappe: Seq<Seq<char>>, e: Innslag)
    ensures
        fil_av(mappe, e).0 == e.sti,
        fil_av(mappe, e).2 == e.bytes,
        !fil_av(mappe, e).1.contains('\\'),
        har_suffiks(fil_av(mappe, e).1, byttet(e.navn, seq!['\\'], '/')),
        mappe.len() == 0 ==> fil_av(mappe, e).1 == byttet(e.navn, seq!['\\'], '/'),
{
    let fra = seq!['\\'];
    assert(fra[0] == '\\');
    let alle = mappe.push(e.navn);
    let s = sti_av(alle);
    let r = byttet(s, fra, '/');
    if r.contains('\\') {
        let i = choose|i: int| 0 <= i < r.len() && r[i] == '\\';
        assert(r[i] != '\\');
    }
    assert(alle.last() == e.navn);
    let n = byttet(e.navn, fra, '/');
    if mappe.len() == 0 {
        assert(alle[0] == e.navn);
    }
    assert(s.skip(s.len() - e.navn.len()) =~= e.navn);
    assert forall|i: int| 0 <= i < n.len() implies r[r.len() - n.len() + i] == #[trigger] n[i] by {
        assert(s.skip(s.len() - e.navn.len())[i] == e.navn[i]);
    }
    assert(r.skip(r.len() - n.len()) =~= n);
}

/// Files in order stand by their paths below the folder: none comes before one that stands in
/// front of it. Files with one and the same path stand as they stood.
pub proof fn ordnet_etter_relativ_sti(inn: Seq<OppFil>, ut: Seq<OppFil>, i: int, j: int, f: OppFil)
    requires
        er_ordnet(inn, ut),
    ensures
        0 <= i < j < ut.len() ==> !foer(
            encode_utf8(ut[j].relativ@),
            encode_utf8(ut[i].relativ@),
        ),
        inn.filter(|g: OppFil| encode_utf8(g.relativ@) == encode_utf8(f.relativ@)) == ut.filter(
            |g: OppFil| encode_utf8(g.relativ@) == encode_utf8(f.relativ@),
        ),
{
    if 0 <= i < j < ut.len() {
        assert(!foer(nokkel_i(ut[j]), nokkel_i(ut[i])));
    }
    let k = encode_utf8(f.relativ@);
    assert(med_nokkel(ut, k) == med_nokkel(inn, k));
    de_med_nokkel(inn, f);
    de_med_nokkel(ut, f);
}

proof fn de_med_nokkel(v: Seq<OppFil>, f: OppFil)
    ensures
        med_nokkel(v, encode_utf8(f.relativ@)) == v.filter(
            |g: OppFil| encode_utf8(g.relativ@) == encode_utf8(f.relativ@),
        ),
    decreases v.len(),
{
    reveal(Seq::filter);
    if v.len() > 0 {
        de_med_nokkel(v.drop_last(), f);
    }
}

} // verus!
