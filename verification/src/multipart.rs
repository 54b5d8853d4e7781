//! Uploading a large file in parts, and going on with an upload that was cut off.
//!
//! The parts that the storage has taken are remembered in a small file; an upload that
//! begins anew sends only the others.
use crate::framdrift::{Melding, Status};
use crate::hash::xxh64_sum;
use crate::json::{del_json, json_av, par, tekst_i, Felt, Json, Kropp, Svar};
use crate::nedlasting::MELD_MS;
use crate::opplasting::{beskriver, fil_kropp, filbeskrivelse, ulike_feltnavn};
use crate::portal::{er_bra, error_eller, gikk_bra, melding_eller, ordene, Svarfeil};
use crate::synk::{nokkel_av, nokkelord};
use crate::tekst::{
    desimal, desimaler, hex16, hexfelt, lik, trim_begge, uten_slutt, uten_start, valgfri,
};
use std::collections::HashSet;
use vstd::prelude::*;
use vstd::set_lib::lemma_len_subset;
use vstd::string::*;
use vstd::utf8::encode_utf8;

verus! {

broadcast use vstd::std_specs::hash::group_hash_axioms;

/// The size of a part: 64 MiB.
pub const DEL_BYTES: u64 = 67_108_864;

/// The size above which a file goes in parts: 96 MiB.
pub const DEL_GRENSE: u64 = 100_663_296;

/// How many parts are signed at a time.
pub const BOLK: usize = 20;

/// How many times a part is tried.
pub const FORSOK_DEL: u32 = 3;

/// Milliseconds after a try that failed.
pub const PAUSE_DEL_MS: u64 = 1200;

/// The size of the pieces in which a part is sent: 256 KiB.
pub const BIT_BYTES: usize = 262_144;

/// An upload in parts, as it is remembered.
#[derive(Debug)]
pub struct Resume {
    pub upload_id: String,
    pub original_key: String,
    pub mappe_id: String,
    pub bytes: u64,
    /// The parts that the storage has, each with its tag, in the order they were sent.
    pub deler: Vec<(u32, String)>,
    /// Where a version for playback can be put; empty where none is wanted.
    pub proxy_put: String,
}

impl Resume {
    /// Whether this is the same upload as `r`, with the parts perhaps further along.
    pub open spec fn samme_opplasting(&self, r: Resume) -> bool {
        &&& self.upload_id == r.upload_id
        &&& self.original_key == r.original_key
        &&& self.mappe_id == r.mappe_id
        &&& self.bytes == r.bytes
        &&& self.proxy_put == r.proxy_put
        &&& r.deler@.is_prefix_of(self.deler@)
    }

    /// Whether nothing is remembered.
    pub open spec fn er_tom(&self) -> bool {
        &&& self.upload_id@.len() == 0
        &&& self.original_key@.len() == 0
        &&& self.mappe_id@.len() == 0
        &&& self.bytes == 0
        &&& self.deler@.len() == 0
        &&& self.proxy_put@.len() == 0
    }

    /// Nothing is remembered.
    pub fn tom() -> (r: Resume)
        ensures
            r.er_tom(),
    {
        Resume {
            upload_id: String::new(),
            original_key: String::new(),
            mappe_id: String::new(),
            bytes: 0,
            deler: Vec::new(),
            proxy_put: String::new(),
        }
    }
}

/// The name of the file that remembers the upload of a file: the checksum of its path,
/// its size and when it was changed.
pub fn resume_sti(sti: &str, bytes: u64, mtime: u64) -> (r: String)
    ensures
        r@ == hexfelt(
            xxh64_sum(
                encode_utf8(nokkel_av(sti@, bytes as nat, mtime as nat)),
                0,
            ) as nat,
            16,
        ) + ".json"@,
{
    let nokkel = nokkelord(sti, bytes, mtime);
    let mut ut = hex16(xxhash_rust::xxh64::xxh64(nokkel.as_str().as_bytes(), 0));
    ut.append(".json");
    ut
}

/// What is remembered of an upload, where it is of the same size and to the same folder;
/// else nothing.
pub fn brukbar(r: Option<Resume>, bytes: u64, mappe_id: &str) -> (ut: Resume)
    ensures
        r is Some && r->0.bytes == bytes && r->0.mappe_id@ == mappe_id@ ==> ut == r->0,
        !(r is Some && r->0.bytes == bytes && r->0.mappe_id@ == mappe_id@) ==> ut.er_tom(),
{
    match r {
        Some(r) => if r.bytes == bytes && lik(r.mappe_id.as_str(), mappe_id) {
            r
        } else {
            Resume::tom()
        },
        None => Resume::tom(),
    }
}

/// How many parts a file of this size has.
pub open spec fn antall_deler(bytes: int) -> int {
    (bytes + DEL_BYTES - 1) / DEL_BYTES as int
}

/// Where in the file a part begins; the first part is number one.
pub open spec fn del_start(nr: int) -> int {
    (nr - 1) * DEL_BYTES
}

/// The length of a part.
pub open spec fn del_lengde(bytes: int, nr: int) -> int {
    if bytes - del_start(nr) < DEL_BYTES {
        bytes - del_start(nr)
    } else {
        DEL_BYTES as int
    }
}

/// How many parts a file has. Of a number beyond 32 bits, the lower 32 bits count.
pub fn tell_deler(bytes: u64) -> (r: u32)
    requires
        bytes + DEL_BYTES <= u64::MAX,
    ensures
        r == antall_deler(bytes as int) as u32,
        r <= antall_deler(bytes as int),
{
    let n: u64 = (bytes + DEL_BYTES - 1) / DEL_BYTES;
    #[verifier::truncate]
    let kort: u32 = n as u32;
    assert(n as u32 as u64 <= n) by (bit_vector);
    kort
}

/// The parts of a file are the file: they follow one another without a gap, the first at
/// its beginning, the last up to its end, and each but the last is of full size.
pub proof fn delene_er_fila(bytes: int)
    requires
        bytes > 0,
    ensures
        antall_deler(bytes) >= 1,
        del_start(1) == 0,
        forall|nr: int|
            1 <= nr <= antall_deler(bytes) ==> 0 < #[trigger] del_lengde(bytes, nr) <= DEL_BYTES,
        forall|nr: int|
            1 <= nr < antall_deler(bytes) ==> #[trigger] del_lengde(bytes, nr) == DEL_BYTES
                && del_start(nr) + del_lengde(bytes, nr) == del_start(nr + 1),
        del_start(antall_deler(bytes)) + del_lengde(bytes, antall_deler(bytes)) == bytes,
{
}

/// The part numbers among the parts that the storage has.
pub open spec fn numre(deler: Seq<(u32, String)>) -> Set<u32> {
    Set::new(|n: u32| exists|k: int| 0 <= k < deler.len() && (#[trigger] deler[k]).0 == n)
}

/// The numbers from one to `antall` that are not among `ferdige`, in order.
pub open spec fn manglende(ferdige: Set<u32>, antall: nat) -> Seq<u32>
    decreases antall,
{
    if antall == 0 {
        Seq::empty()
    } else {
        let foran = manglende(ferdige, (antall - 1) as nat);
        if ferdige.contains(antall as u32) {
            foran
        } else {
            foran.push(antall as u32)
        }
    }
}

/// What is sent is the rest: the parts that are missing are exactly those of the file that
/// the storage does not have, each once and in order.
pub proof fn manglende_er_resten(ferdige: Set<u32>, antall: nat)
    requires
        antall <= u32::MAX,
    ensures
        forall|j: int|
            0 <= j < manglende(ferdige, antall).len() ==> {
                let n = #[trigger] manglende(ferdige, antall)[j];
                1 <= n <= antall && !ferdige.contains(n)
            },
        forall|j: int, k: int|
            0 <= j < k < manglende(ferdige, antall).len() ==> manglende(ferdige, antall)[j]
                < manglende(ferdige, antall)[k],
        forall|n: u32|
            1 <= n <= antall && !ferdige.contains(n) ==> #[trigger] manglende(
                ferdige,
                antall,
            ).contains(n),
    decreases antall,
{
    if antall > 0 {
        manglende_er_resten(ferdige, (antall - 1) as nat);
        let foran = manglende(ferdige, (antall - 1) as nat);
        let alle = manglende(ferdige, antall);
        assert forall|n: u32| 1 <= n <= antall && !ferdige.contains(n) implies #[trigger] alle.contains(
            n,
        ) by {
            if n == antall {
                assert(alle[alle.len() - 1] == n);
            } else {
                assert(foran.contains(n));
                let k = choose|k: int| 0 <= k < foran.len() && foran[k] == n;
                assert(alle[k] == n);
            }
        }
    }
}

/// Collects the part numbers that the storage has.
fn samle_numre(deler: &Vec<(u32, String)>) -> (r: HashSet<u32>)
    ensures
        r@ == numre(deler@),
{
    let mut ut: HashSet<u32> = HashSet::new();
    let mut i: usize = 0;
    assert(ut@ =~= numre(deler@.take(0)));
    while i < deler.len()
        invariant
            i <= deler@.len(),
            ut@ == numre(deler@.take(i as int)),
        decreases deler@.len() - i,
    {
        let nr: u32 = deler[i].0;
        let ghost foer = deler@.take(i as int);
        let ghost etter = deler@.take(i + 1);
        ut.insert(nr);
        proof {
            en_del_til(foer, deler@[i as int]);
            assert(foer.push(deler@[i as int]) =~= etter);
        }
        i += 1;
    }
    assert(deler@.take(i as int) =~= deler@);
    ut
}

fn finn_manglende(ferdige: &HashSet<u32>, antall: u32) -> (r: Vec<u32>)
    ensures
        r@ == manglende(ferdige@, antall as nat),
{
    let mut ut: Vec<u32> = Vec::new();
    let mut n: u32 = 0;
    while n < antall
        invariant
            n <= antall,
            ut@ == manglende(ferdige@, n as nat),
        decreases antall - n,
    {
        n += 1;
        if !ferdige.contains(&n) {
            ut.push(n);
        }
    }
    ut
}

proof fn en_del_til(deler: Seq<(u32, String)>, d: (u32, String))
    ensures
        numre(deler.push(d)) == numre(deler).insert(d.0),
{
    let etter = deler.push(d);
    assert forall|n: u32| numre(etter).contains(n) == numre(deler).insert(d.0).contains(n) by {
        if numre(deler).contains(n) {
            let k = choose|k: int| 0 <= k < deler.len() && (#[trigger] deler[k]).0 == n;
            assert(etter[k].0 == n);
        }
        assert(etter[deler.len() as int].0 == d.0);
        if numre(etter).contains(n) && n != d.0 {
            let k = choose|k: int| 0 <= k < etter.len() && (#[trigger] etter[k]).0 == n;
            assert(deler[k].0 == n);
        }
    }
    assert(numre(etter) =~= numre(deler).insert(d.0));
}

/// How many bytes these parts of a file have together.
pub open spec fn lengde_av(nr: Seq<u32>, bytes: int) -> int
    decreases nr.len(),
{
    if nr.len() == 0 {
        0
    } else {
        del_lengde(bytes, nr[0] as int) + lengde_av(nr.drop_first(), bytes)
    }
}

proof fn lengde_av_en_til(nr: Seq<u32>, n: u32, bytes: int)
    ensures
        lengde_av(nr.push(n), bytes) == lengde_av(nr, bytes) + del_lengde(bytes, n as int),
    decreases nr.len(),
{
    if nr.len() == 0 {
        assert(nr.push(n).drop_first() =~= nr);
    } else {
        lengde_av_en_til(nr.drop_first(), n, bytes);
        assert(nr.push(n).drop_first() =~= nr.drop_first().push(n));
    }
}

proof fn lengde_av_er_ikke_under_null(nr: Seq<u32>, bytes: int)
    requires
        0 <= bytes,
        forall|j: int| 0 <= j < nr.len() ==> 1 <= #[trigger] nr[j] <= antall_deler(bytes),
    ensures
        lengde_av(nr, bytes) >= 0,
    decreases nr.len(),
{
    if nr.len() > 0 {
        assert(1 <= nr[0] <= antall_deler(bytes));
        assert(del_lengde(bytes, nr[0] as int) >= 0);
        assert forall|j: int| 0 <= j < nr.drop_first().len() implies 1
            <= #[trigger] nr.drop_first()[j] <= antall_deler(bytes) by {
            assert(nr.drop_first()[j] == nr[j + 1]);
        }
        lengde_av_er_ikke_under_null(nr.drop_first(), bytes);
    }
}

proof fn numre_er_endelig(deler: Seq<(u32, String)>)
    ensures
        numre(deler).finite(),
    decreases deler.len(),
{
    if deler.len() == 0 {
        assert(numre(deler) =~= Set::empty());
    } else {
        numre_er_endelig(deler.drop_last());
        en_del_til(deler.drop_last(), deler.last());
        assert(deler.drop_last().push(deler.last()) =~= deler);
    }
}

/// The parts that the storage has, counted as full ones, and those that are missing make up
/// at least the first `a` parts of the file.
proof fn ferdige_og_manglende(ferdige: Set<u32>, a: nat, bytes: int)
    requires
        ferdige.finite(),
        a <= u32::MAX,
        a <= antall_deler(bytes),
        0 <= bytes,
    ensures
        ({
            let foran = if a * DEL_BYTES < bytes {
                a * DEL_BYTES
            } else {
                bytes
            };
            foran <= ferdige.filter(|n: u32| 1 <= n <= a).len() * DEL_BYTES + lengde_av(
                manglende(ferdige, a),
                bytes,
            )
        }),
    decreases a,
{
    let her = ferdige.filter(|n: u32| 1 <= n <= a);
    if a > 0 {
        let b = (a - 1) as nat;
        let foer = ferdige.filter(|n: u32| 1 <= n <= b);
        ferdige_og_manglende(ferdige, b, bytes);
        let n = a as u32;
        if ferdige.contains(n) {
            assert(her =~= foer.insert(n));
        } else {
            assert(her =~= foer);
            lengde_av_en_til(manglende(ferdige, b), n, bytes);
        }
    }
}

/// The address that was given for a part; the last where there are several.
pub open spec fn url_av(deler: Seq<(u32, Seq<char>)>, nr: u32) -> Option<Seq<char>>
    decreases deler.len(),
{
    if deler.len() == 0 {
        None
    } else if deler.last().0 == nr {
        Some(deler.last().1)
    } else {
        url_av(deler.drop_last(), nr)
    }
}

/// Finds the address that was given for a part.
pub fn url_for(deler: &Vec<(u32, String)>, nr: u32) -> (r: Option<String>)
    ensures
        valgfri(r) == url_av(par(deler@), nr),
        r is None <==> forall|i: int| 0 <= i < deler@.len() ==> (#[trigger] deler@[i]).0 != nr,
        r is Some ==> exists|i: int|
            0 <= i < deler@.len() && (#[trigger] deler@[i]).0 == nr && deler@[i].1@ == r->0@
                && forall|j: int| i < j < deler@.len() ==> (#[trigger] deler@[j]).0 != nr,
{
    let mut n: usize = deler.len();
    assert(par(deler@).take(n as int) =~= par(deler@));
    while n > 0
        invariant
            n <= deler@.len(),
            url_av(par(deler@).take(n as int), nr) == url_av(par(deler@), nr),
            forall|j: int| n <= j < deler@.len() ==> (#[trigger] deler@[j]).0 != nr,
        decreases n,
    {
        assert(par(deler@).take(n as int).last() == (deler@[n - 1].0, deler@[n - 1].1@));
        if deler[n - 1].0 == nr {
            let url = deler[n - 1].1.clone();
            assert(deler@[n - 1].1@ == url@);
            return Some(url);
        }
        assert(par(deler@).take(n as int).drop_last() =~= par(deler@).take(n - 1));
        n -= 1;
    }
    None
}

/// Why an upload in parts failed.
#[derive(Clone, Copy, Debug, PartialEq, Eq, Structural)]
pub enum Feil {
    Avbrutt,
    /// The portal gave no address for a part.
    UtenUrl,
    /// The storage did not take a part.
    Del(u32),
    /// The portal would not sign any part, not even of a new upload.
    Signering,
}

/// The words for a failure. For a refusal to sign, the portal's own come first.
pub open spec fn feiltekst(f: Feil, error: Option<Seq<char>>) -> Seq<char> {
    match f {
        Feil::Avbrutt => "Avbrutt"@,
        Feil::UtenUrl => "mangler URL for del"@,
        Feil::Del(nr) => "Del "@ + desimaler(nr as nat)
            + " feilet — prøv igjen (fortsetter fra del "@ + desimaler(nr as nat) + ")"@,
        Feil::Signering => error_eller(
            error,
            "Kunne ikke signere deler — opplastingen kan være utløpt; prøv igjen"@,
        ),
    }
}

impl Feil {
    /// The words for a failure, where the portal last had the words `error`.
    pub fn tekst(self, error: &Option<String>) -> (r: String)
        ensures
            r@ == feiltekst(self, valgfri(*error)),
    {
        match self {
            Feil::Avbrutt => "Avbrutt".to_owned(),
            Feil::UtenUrl => "mangler URL for del".to_owned(),
            Feil::Del(nr) => {
                let mut ut = "Del ".to_owned();
                ut.append(desimal(nr as u64).as_str());
                ut.append(" feilet — prøv igjen (fortsetter fra del ");
                ut.append(desimal(nr as u64).as_str());
                ut.append(")");
                ut
            },
            Feil::Signering => melding_eller(
                error,
                "Kunne ikke signere deler — opplastingen kan være utløpt; prøv igjen",
            ),
        }
    }
}

/// What an upload in parts waits for.
#[derive(Clone, Copy, Debug, PartialEq, Eq, Structural)]
pub enum Trinn {
    /// A new upload at the portal.
    Start,
    /// Addresses for the next parts.
    Signer,
    /// The next part to begin.
    Del,
    /// The storage's answer to a part.
    Put,
    /// The portal's word that the parts have been put together.
    Sett,
    /// Nothing more.
    Over,
}

/// What the application is to do next.
#[derive(Clone, Copy, Debug, PartialEq, Eq, Structural)]
pub enum Handling {
    /// Ask the portal for a new upload.
    Start,
    /// Ask the portal for addresses for the missing parts from one place in their list up
    /// to another.
    Signer { fra: usize, til: usize },
    /// See whether the user has asked to stop, and whether there is an address for part
    /// `nr`.
    Del { nr: u32 },
    /// Read the bytes of part `nr` and send them.
    Send { nr: u32, start: u64, lengde: u64 },
    /// Send the part again.
    SendIgjen,
    /// Ask the portal to put the parts together.
    Sett,
    Feilet(Feil),
}

/// A step: whether to write down what is remembered, then what to report, in order, how
/// long to pause after that, and what to do.
#[derive(Debug)]
pub struct Steg {
    pub husk: bool,
    pub meldinger: Vec<Melding>,
    pub pause_ms: u64,
    pub handling: Handling,
}

impl Steg {
    /// Whether this is the step that begins with `husk` and reports `meldinger`, and
    /// goes on to `handling` without a pause.
    pub open spec fn er(&self, husk: bool, meldinger: Seq<Melding>, handling: Handling) -> bool {
        &&& self.husk == husk
        &&& self.meldinger@ == meldinger
        &&& self.pause_ms == 0
        &&& self.handling == handling
    }

    /// A step that reports nothing.
    fn stille(handling: Handling) -> (r: Steg)
        ensures
            r.er(false, Seq::empty(), handling),
    {
        Steg { husk: false, meldinger: Vec::new(), pause_ms: 0, handling }
    }
}

/// A file that is in the storage.
#[derive(Debug)]
pub struct Lagret {
    pub key: String,
    pub hentet: u64,
    pub proxy_put: String,
}

/// An upload in parts.
#[derive(Debug)]
pub struct Multipart {
    pub bytes: u64,
    pub antall: u32,
    pub resume: Resume,
    /// The parts that were missing when the upload began, and how many of them have been
    /// sent since.
    pub mangler: Vec<u32>,
    pub i: usize,
    /// Up to where in that list there are addresses.
    pub bolk: usize,
    pub hentet: u64,
    /// Whether a dead upload has been replaced by a new one.
    pub omstart_brukt: bool,
    /// How many times the present part has been tried.
    pub forsok: u32,
    pub trinn: Trinn,
}

pub open spec fn melding(hentet: u64, total: u64, status: Status) -> Melding {
    Melding { hentet, total, status }
}

/// Whether less is left by `a` than by `b`: the first place in which they differ decides.
pub open spec fn mindre(a: (nat, nat, nat, nat), b: (nat, nat, nat, nat)) -> bool {
    ||| a.0 < b.0
    ||| a.0 == b.0 && a.1 < b.1
    ||| a.0 == b.0 && a.1 == b.1 && a.2 < b.2
    ||| a.0 == b.0 && a.1 == b.1 && a.2 == b.2 && a.3 < b.3
}

/// The end of the stretch of parts that is signed from `i` on.
pub open spec fn bolkslutt(i: int, alle: int) -> int {
    if i + BOLK < alle {
        i + BOLK
    } else {
        alle
    }
}

/// Whether an answer of the storage to the present part leads from one state to another, and
/// to this step.
pub open spec fn put_forer_til(
    foer: Multipart,
    etter: Multipart,
    s: Steg,
    status: Option<u16>,
    etag: Option<Seq<char>>,
) -> bool {
    let nr = foer.mangler@[foer.i as int];
    let tatt = status is Some && gikk_bra(status->0);
    if tatt && etag is Some {
        let naa = foer.hentet + del_lengde(foer.bytes as int, nr as int);
        let laster = melding(etter.hentet, foer.bytes, Status::Laster);
        &&& par(etter.resume.deler@) == par(foer.resume.deler@).push(
            (nr, uten_start(uten_slutt(etag->0, '"'), '"')),
        )
        &&& etter.hentet == if naa < foer.bytes {
            naa
        } else {
            foer.bytes as int
        }
        &&& etter.i == foer.i + 1
        &&& numre(etter.resume.deler@) == numre(foer.resume.deler@).insert(nr)
        &&& if etter.i < foer.bolk {
            &&& etter.trinn == Trinn::Del
            &&& etter.bolk == foer.bolk
            &&& s.er(
                true,
                seq![laster],
                Handling::Del { nr: foer.mangler@[foer.i + 1] },
            )
        } else if etter.i < foer.mangler@.len() {
            &&& etter.trinn == Trinn::Signer
            &&& s.er(
                true,
                seq![laster],
                Handling::Signer { fra: etter.i, til: etter.bolk },
            )
        } else {
            &&& etter.trinn == Trinn::Sett
            &&& s.er(
                true,
                seq![laster, melding(foer.bytes, foer.bytes, Status::Setter)],
                Handling::Sett,
            )
        }
    } else {
        &&& etter.resume == foer.resume
        &&& etter.hentet == foer.hentet
        &&& etter.i == foer.i
        &&& etter.bolk == foer.bolk
        &&& !s.husk
        &&& s.meldinger@ == Seq::<Melding>::empty()
        &&& s.pause_ms == if tatt || status == Some(403u16) {
            0
        } else {
            PAUSE_DEL_MS
        }
        &&& if tatt || status == Some(403u16) || foer.forsok == FORSOK_DEL {
            &&& etter.trinn == Trinn::Over
            &&& s.handling == Handling::Feilet(Feil::Del(nr))
        } else {
            &&& etter.trinn == Trinn::Put
            &&& etter.forsok == foer.forsok + 1
            &&& s.handling == Handling::SendIgjen
        }
    }
}

/// Whether an answer of the portal with so many addresses leads from one state to another, and
/// to this step.
pub open spec fn signering_forer_til(
    foer: Multipart,
    etter: Multipart,
    s: Steg,
    adresser: nat,
) -> bool {
    &&& adresser > 0 ==> {
        &&& etter.omstart_brukt == foer.omstart_brukt
        &&& etter.trinn == Trinn::Del
        &&& s.er(
            false,
            Seq::empty(),
            Handling::Del { nr: foer.mangler@[foer.i as int] },
        )
    }
    &&& adresser == 0 && !foer.omstart_brukt ==> {
        &&& etter.omstart_brukt
        &&& etter.trinn == Trinn::Start
        &&& s.er(
            false,
            seq![melding(0, foer.bytes, Status::Kobler)],
            Handling::Start,
        )
    }
    &&& adresser == 0 && foer.omstart_brukt ==> {
        &&& etter.omstart_brukt
        &&& etter.trinn == Trinn::Over
        &&& s.er(false, Seq::empty(), Handling::Feilet(Feil::Signering))
    }
}

/// Whether the number of parts of a file of this size fits in 32 bits.
pub open spec fn lar_seg_dele(bytes: u64) -> bool {
    antall_deler(bytes as int) <= u32::MAX
}

/// The list of missing parts, of which `i` have been sent, fits the parts that the storage
/// has: what has not been sent yet is exactly what the storage lacks, and makes up for the
/// bytes that do not count as sent.
#[verifier::opaque]
pub open spec fn plan(
    mangler: Seq<u32>,
    i: int,
    ferdige: Set<u32>,
    antall: u32,
    bytes: u64,
    hentet: u64,
) -> bool {
    &&& 0 <= i <= mangler.len()
    &&& lar_seg_dele(bytes) ==> bytes <= hentet + lengde_av(mangler.skip(i), bytes as int)
    &&& forall|j: int| 0 <= j < mangler.len() ==> 1 <= #[trigger] mangler[j] <= antall
    &&& forall|j: int, k: int| 0 <= j < k < mangler.len() ==> mangler[j] < mangler[k]
    &&& forall|j: int| i <= j < mangler.len() ==> !ferdige.contains(#[trigger] mangler[j])
    &&& forall|n: u32|
        #![trigger ferdige.contains(n)]
        1 <= n <= antall && !ferdige.contains(n) ==> exists|j: int|
            i <= j < mangler.len() && #[trigger] mangler[j] == n
}

/// The plan of an upload that goes on from the parts that the storage has.
proof fn plan_fra_start(
    mangler: Seq<u32>,
    ferdige: Set<u32>,
    antall: u32,
    bytes: u64,
    hentet: u64,
)
    requires
        ferdige.finite(),
        antall == antall_deler(bytes as int) as u32,
        antall <= antall_deler(bytes as int),
        mangler == manglende(ferdige, antall as nat),
        hentet == if ferdige.len() * DEL_BYTES < bytes {
            ferdige.len() * DEL_BYTES
        } else {
            bytes as int
        },
    ensures
        plan(mangler, 0, ferdige, antall, bytes, hentet),
        mangler.len() == 0 && lar_seg_dele(bytes) ==> hentet == bytes,
{
    reveal(plan);
    let b = bytes as int;
    manglende_er_resten(ferdige, antall as nat);
    assert forall|m: u32|
        #![trigger ferdige.contains(m)]
        1 <= m <= antall && !ferdige.contains(m) implies exists|j: int|
        0 <= j < mangler.len() && #[trigger] mangler[j] == m by {
        assert(mangler.contains(m));
    }
    assert(mangler.skip(0) =~= mangler);
    assert forall|j: int| 0 <= j < mangler.len() implies 1 <= #[trigger] mangler[j]
        <= antall_deler(b) by {}
    lengde_av_er_ikke_under_null(mangler, b);
    if lar_seg_dele(bytes) {
        assert(antall == antall_deler(b));
        assert(antall * DEL_BYTES >= b);
        ferdige_og_manglende(ferdige, antall as nat, b);
        let med = ferdige.filter(|n: u32| 1 <= n <= antall as nat);
        assert(med.subset_of(ferdige));
        lemma_len_subset(med, ferdige);
        assert(b <= med.len() * DEL_BYTES + lengde_av(mangler, b));
        assert(b <= hentet + lengde_av(mangler, b));
    }
}

/// The plan when the next of its parts has been taken.
proof fn plan_etter_del(
    mangler: Seq<u32>,
    i: int,
    ferdige: Set<u32>,
    antall: u32,
    bytes: u64,
    hentet: u64,
    etter: u64,
)
    requires
        plan(mangler, i, ferdige, antall, bytes, hentet),
        i < mangler.len(),
        hentet <= bytes,
        antall <= antall_deler(bytes as int),
        ({
            let naa = hentet + del_lengde(bytes as int, mangler[i] as int);
            etter == if naa < bytes {
                naa
            } else {
                bytes as int
            }
        }),
    ensures
        plan(mangler, i + 1, ferdige.insert(mangler[i]), antall, bytes, etter),
        i + 1 == mangler.len() && lar_seg_dele(bytes) ==> etter == bytes,
{
    reveal(plan);
    let naa_ferdige = ferdige.insert(mangler[i]);
    assert forall|m: u32|
        #![trigger naa_ferdige.contains(m)]
        1 <= m <= antall && !naa_ferdige.contains(m) implies exists|j: int|
        i + 1 <= j < mangler.len() && #[trigger] mangler[j] == m by {
        assert(!ferdige.contains(m));
        let j = choose|j: int| i <= j < mangler.len() && #[trigger] mangler[j] == m;
        assert(j != i);
    }
    assert forall|j: int| i + 1 <= j < mangler.len() implies !naa_ferdige.contains(
        #[trigger] mangler[j],
    ) by {
        assert(mangler[i] < mangler[j]);
    }
    let rest = mangler.skip(i);
    assert(rest.drop_first() =~= mangler.skip(i + 1));
    assert(rest[0] == mangler[i]);
    assert forall|j: int| 0 <= j < rest.drop_first().len() implies 1
        <= #[trigger] rest.drop_first()[j] <= antall_deler(bytes as int) by {
        assert(rest.drop_first()[j] == mangler[i + 1 + j]);
    }
    lengde_av_er_ikke_under_null(rest.drop_first(), bytes as int);
}

impl Multipart {
    /// The list of missing parts fits the parts that the storage has.
    pub open spec fn plan_stemmer(&self) -> bool {
        plan(
            self.mangler@,
            self.i as int,
            numre(self.resume.deler@),
            self.antall,
            self.bytes,
            self.hentet,
        )
    }

    /// What holds of every upload in parts.
    pub open spec fn gyldig(&self) -> bool {
        &&& self.bytes + DEL_BYTES <= u64::MAX
        &&& self.antall == antall_deler(self.bytes as int) as u32
        &&& self.antall <= antall_deler(self.bytes as int)
        &&& self.hentet <= self.bytes
        &&& self.trinn != Trinn::Start && self.trinn != Trinn::Over ==> self.plan_stemmer()
        &&& self.trinn == Trinn::Signer ==> self.i < self.bolk && self.bolk == bolkslutt(
            self.i as int,
            self.mangler@.len() as int,
        )
        &&& self.trinn == Trinn::Del || self.trinn == Trinn::Put ==> self.i < self.bolk
            <= self.mangler@.len()
        &&& self.trinn == Trinn::Put ==> 1 <= self.forsok <= FORSOK_DEL
        &&& self.trinn == Trinn::Sett ==> self.i == self.mangler@.len()
        &&& self.trinn == Trinn::Sett && self.delbar() ==> self.hentet == self.bytes
    }

    /// Whether the number of parts fits in 32 bits.
    pub open spec fn delbar(&self) -> bool {
        lar_seg_dele(self.bytes)
    }

    /// How much is left, which each step makes less of, so that there is an end to it, also
    /// with a portal that refuses everything: whether a dead upload may still be replaced,
    /// whether a new one is to be made, how many parts are missing, and how much of the
    /// present part is to do.
    pub open spec fn igjen(&self) -> (nat, nat, nat, nat) {
        let omstart: nat = if self.omstart_brukt {
            0
        } else {
            1
        };
        let deler = (self.mangler@.len() - self.i) as nat;
        match self.trinn {
            Trinn::Start => (omstart, 1, 0, 0),
            Trinn::Signer => (omstart, 0, deler, 5),
            Trinn::Del => (omstart, 0, deler, 4),
            Trinn::Put => (omstart, 0, deler, (FORSOK_DEL - self.forsok) as nat),
            Trinn::Sett => (omstart, 0, 0, 1),
            Trinn::Over => (omstart, 0, 0, 0),
        }
    }

    /// The bytes that count as sent when the upload goes on from what the storage has.
    pub open spec fn sendt_foer(deler: Seq<(u32, String)>, bytes: u64) -> int {
        if numre(deler).len() * DEL_BYTES < bytes {
            numre(deler).len() * DEL_BYTES
        } else {
            bytes as int
        }
    }

    /// Whether `s` is the step by which an upload goes on from what it remembers: the next
    /// parts are signed, or all are there and are put together.
    pub open spec fn gaar_videre(&self, s: Steg, husk: bool, foran: Seq<Melding>) -> bool {
        let laster = foran.push(melding(self.hentet, self.bytes, Status::Laster));
        if self.mangler@.len() == 0 {
            &&& self.trinn == Trinn::Sett
            &&& s.er(
                husk,
                laster.push(melding(self.bytes, self.bytes, Status::Setter)),
                Handling::Sett,
            )
        } else {
            &&& self.trinn == Trinn::Signer
            &&& s.er(
                husk,
                if self.hentet == 0 {
                    laster.push(melding(0, self.bytes, Status::Kobler))
                } else {
                    laster
                },
                Handling::Signer { fra: 0, til: self.bolk },
            )
        }
    }

    /// Plans the upload from what it remembers.
    fn planlegg(&mut self, husk: bool, foran: Vec<Melding>) -> (r: Steg)
        requires
            old(self).bytes + DEL_BYTES <= u64::MAX,
            old(self).antall == antall_deler(old(self).bytes as int) as u32,
            old(self).antall <= antall_deler(old(self).bytes as int),
        ensures
            final(self).gyldig(),
            final(self).bytes == old(self).bytes,
            final(self).antall == old(self).antall,
            final(self).resume == old(self).resume,
            final(self).omstart_brukt == old(self).omstart_brukt,
            final(self).mangler@ == manglende(
                numre(old(self).resume.deler@),
                old(self).antall as nat,
            ),
            final(self).i == 0,
            final(self).hentet == Self::sendt_foer(old(self).resume.deler@, old(self).bytes),
            final(self).gaar_videre(r, husk, foran@),
    {
        let ferdige = samle_numre(&self.resume.deler);
        let n: usize = ferdige.len();
        self.hentet = if (n as u128) * (DEL_BYTES as u128) < self.bytes as u128 {
            n as u64 * DEL_BYTES
        } else {
            self.bytes
        };
        self.mangler = finn_manglende(&ferdige, self.antall);
        self.i = 0;
        self.forsok = 0;
        let mut meldinger = foran;
        meldinger.push(
            Melding { hentet: self.hentet, total: self.bytes, status: Status::Laster },
        );
        proof {
            numre_er_endelig(self.resume.deler@);
            plan_fra_start(
                self.mangler@,
                numre(self.resume.deler@),
                self.antall,
                self.bytes,
                self.hentet,
            );
        }
        if self.mangler.len() == 0 {
            self.bolk = 0;
            self.trinn = Trinn::Sett;
            meldinger.push(
                Melding { hentet: self.bytes, total: self.bytes, status: Status::Setter },
            );
            Steg { husk, meldinger, pause_ms: 0, handling: Handling::Sett }
        } else {
            let til: usize = if self.mangler.len() > BOLK {
                BOLK
            } else {
                self.mangler.len()
            };
            self.bolk = til;
            self.trinn = Trinn::Signer;
            if self.hentet == 0 {
                meldinger.push(
                    Melding { hentet: 0, total: self.bytes, status: Status::Kobler },
                );
            }
            Steg { husk, meldinger, pause_ms: 0, handling: Handling::Signer { fra: 0, til } }
        }
    }

    /// Begins to upload a file of `bytes` bytes from what is remembered of it: with a new
    /// upload where nothing is, else with the parts that are missing.
    pub fn begynn(bytes: u64, resume: Resume) -> (r: (Multipart, Steg))
        requires
            bytes + DEL_BYTES <= u64::MAX,
        ensures
            r.0.gyldig(),
            r.0.bytes == bytes,
            r.0.resume == resume,
            !r.0.omstart_brukt,
            resume.upload_id@.len() == 0 ==> {
                &&& r.0.trinn == Trinn::Start
                &&& r.0.hentet == 0
                &&& r.1.er(false, seq![melding(0, bytes, Status::Kobler)], Handling::Start)
            },
            resume.upload_id@.len() > 0 ==> {
                &&& r.0.mangler@ == manglende(numre(resume.deler@), r.0.antall as nat)
                &&& r.0.i == 0
                &&& r.0.hentet == Self::sendt_foer(resume.deler@, bytes)
                &&& r.0.gaar_videre(r.1, false, seq![melding(0, bytes, Status::Kobler)])
            },
    {
        let uten = resume.upload_id.as_str().is_empty();
        let mut m = Multipart {
            bytes,
            antall: tell_deler(bytes),
            resume,
            mangler: Vec::new(),
            i: 0,
            bolk: 0,
            hentet: 0,
            omstart_brukt: false,
            forsok: 0,
            trinn: Trinn::Start,
        };
        let mut meldinger: Vec<Melding> = Vec::new();
        meldinger.push(Melding { hentet: 0, total: bytes, status: Status::Kobler });
        assert(meldinger@ =~= seq![melding(0, bytes, Status::Kobler)]);
        if uten {
            (m, Steg { husk: false, meldinger, pause_ms: 0, handling: Handling::Start })
        } else {
            let s = m.planlegg(false, meldinger);
            (m, s)
        }
    }

    /// The portal has made a new upload.
    pub fn startet(&mut self, resume: Resume) -> (r: Steg)
        requires
            old(self).gyldig(),
            old(self).trinn == Trinn::Start,
        ensures
            final(self).gyldig(),
            final(self).bytes == old(self).bytes,
            final(self).antall == old(self).antall,
            final(self).resume == resume,
            final(self).omstart_brukt == old(self).omstart_brukt,
            final(self).mangler@ == manglende(numre(resume.deler@), old(self).antall as nat),
            final(self).i == 0,
            final(self).hentet == Self::sendt_foer(resume.deler@, old(self).bytes),
            final(self).gaar_videre(r, true, Seq::empty()),
            mindre(final(self).igjen(), old(self).igjen()),
    {
        self.resume = resume;
        self.planlegg(true, Vec::new())
    }

    /// The portal has answered with addresses, or with none. Without any the upload is dead
    /// and is replaced by a new one, once.
    pub fn signert(&mut self, svar: &Svar) -> (r: Steg)
        requires
            old(self).gyldig(),
            old(self).trinn == Trinn::Signer,
        ensures
            final(self).gyldig(),
            final(self).bytes == old(self).bytes,
            final(self).antall == old(self).antall,
            final(self).resume == old(self).resume,
            final(self).mangler@ == old(self).mangler@,
            final(self).i == old(self).i,
            final(self).bolk == old(self).bolk,
            final(self).hentet == old(self).hentet,
            mindre(final(self).igjen(), old(self).igjen()),
            signering_forer_til(*old(self), *final(self), r, svar.deler@.len()),
    {
        if svar.deler.len() > 0 {
            self.trinn = Trinn::Del;
            Steg::stille(Handling::Del { nr: self.mangler[self.i] })
        } else if !self.omstart_brukt {
            self.omstart_brukt = true;
            self.trinn = Trinn::Start;
            let mut meldinger: Vec<Melding> = Vec::new();
            meldinger.push(
                Melding { hentet: 0, total: self.bytes, status: Status::Kobler },
            );
            assert(meldinger@ =~= seq![melding(0, self.bytes, Status::Kobler)]);
            Steg { husk: false, meldinger, pause_ms: 0, handling: Handling::Start }
        } else {
            self.trinn = Trinn::Over;
            Steg::stille(Handling::Feilet(Feil::Signering))
        }
    }

    /// Begins the next part, unless the user has asked to stop or there is no address for
    /// it. The part is one that the storage does not have.
    pub fn begynn_del(&mut self, avbrutt: bool, svar: &Svar) -> (r: Steg)
        requires
            old(self).gyldig(),
            old(self).trinn == Trinn::Del,
        ensures
            final(self).gyldig(),
            final(self).bytes == old(self).bytes,
            final(self).antall == old(self).antall,
            final(self).resume == old(self).resume,
            final(self).mangler@ == old(self).mangler@,
            final(self).i == old(self).i,
            final(self).bolk == old(self).bolk,
            final(self).hentet == old(self).hentet,
            final(self).omstart_brukt == old(self).omstart_brukt,
            mindre(final(self).igjen(), old(self).igjen()),
            ({
                let nr = old(self).mangler@[old(self).i as int];
                if avbrutt {
                    &&& final(self).trinn == Trinn::Over
                    &&& r.er(false, Seq::empty(), Handling::Feilet(Feil::Avbrutt))
                } else if url_av(par(svar.deler@), nr) is None {
                    &&& final(self).trinn == Trinn::Over
                    &&& r.er(false, Seq::empty(), Handling::Feilet(Feil::UtenUrl))
                } else {
                    &&& final(self).trinn == Trinn::Put
                    &&& final(self).forsok == 1
                    &&& r.handling is Send
                    &&& r.handling->Send_nr == nr
                    &&& r.handling->start == del_start(nr as int)
                    &&& r.handling->lengde == del_lengde(old(self).bytes as int, nr as int)
                    &&& r.handling->start == (nr - 1) * (64 * 1024 * 1024)
                    &&& r.handling->start + r.handling->lengde <= old(self).bytes
                    &&& 0 < r.handling->lengde <= 64 * 1024 * 1024
                    &&& r.handling->lengde < 64 * 1024 * 1024 ==> r.handling->start
                        + r.handling->lengde == old(self).bytes
                    &&& r.er(false, Seq::empty(), r.handling)
                    &&& !numre(old(self).resume.deler@).contains(nr)
                }
            }),
    {
        let nr: u32 = self.mangler[self.i];
        assert(1 <= nr <= self.antall && !numre(self.resume.deler@).contains(nr)) by {
            reveal(plan);
        }
        if avbrutt {
            self.trinn = Trinn::Over;
            return Steg::stille(Handling::Feilet(Feil::Avbrutt));
        }
        if url_for(&svar.deler, nr).is_none() {
            self.trinn = Trinn::Over;
            return Steg::stille(Handling::Feilet(Feil::UtenUrl));
        }
        let (start, lengde) = self.utstrekning(nr);
        self.trinn = Trinn::Put;
        self.forsok = 1;
        Steg::stille(Handling::Send { nr, start, lengde })
    }

    /// Where a part begins, and how long it is.
    fn utstrekning(&self, nr: u32) -> (r: (u64, u64))
        requires
            self.gyldig(),
            1 <= nr <= self.antall,
        ensures
            r.0 == del_start(nr as int),
            r.1 == del_lengde(self.bytes as int, nr as int),
            r.1 > 0,
    {
        let start: u64 = (nr as u64 - 1) * DEL_BYTES;
        let lengde: u64 = if self.bytes - start < DEL_BYTES {
            self.bytes - start
        } else {
            DEL_BYTES
        };
        (start, lengde)
    }

    /// The storage has answered to the present part, with a status code and perhaps a tag,
    /// or has not answered. A part that was taken with a tag is remembered; one that was
    /// not is tried again, unless it was forbidden or has been tried often enough.
    pub fn put_svar(&mut self, status: Option<u16>, etag: Option<String>) -> (r: Steg)
        requires
            old(self).gyldig(),
            old(self).trinn == Trinn::Put,
        ensures
            final(self).gyldig(),
            final(self).bytes == old(self).bytes,
            final(self).antall == old(self).antall,
            final(self).mangler@ == old(self).mangler@,
            final(self).omstart_brukt == old(self).omstart_brukt,
            final(self).resume.samme_opplasting(old(self).resume),
            mindre(final(self).igjen(), old(self).igjen()),
            put_forer_til(*old(self), *final(self), r, status, valgfri(etag)),
    {
        let nr: u32 = self.mangler[self.i];
        let tatt = match status {
            Some(kode) => er_bra(kode),
            None => false,
        };
        if tatt {
            match etag {
                Some(e) => {
                    let ren = trim_begge(e.as_str(), '"');
                    let ghost foer = self.resume.deler@;
                    let ghost d = (nr, ren);
                    proof {
                        en_del_til(foer, d);
                    }
                    let s = self.tatt(nr, ren);
                    assert(par(self.resume.deler@) =~= par(foer).push((nr, d.1@)));
                    s
                },
                None => {
                    self.trinn = Trinn::Over;
                    Steg::stille(Handling::Feilet(Feil::Del(nr)))
                },
            }
        } else if status == Some(403u16) {
            self.trinn = Trinn::Over;
            Steg::stille(Handling::Feilet(Feil::Del(nr)))
        } else {
            let handling = if self.forsok < FORSOK_DEL {
                self.forsok = self.forsok + 1;
                Handling::SendIgjen
            } else {
                self.trinn = Trinn::Over;
                Handling::Feilet(Feil::Del(nr))
            };
            let meldinger: Vec<Melding> = Vec::new();
            assert(meldinger@ =~= Seq::<Melding>::empty());
            Steg { husk: false, meldinger, pause_ms: PAUSE_DEL_MS, handling }
        }
    }

    /// Remembers the present part, and goes on.
    fn tatt(&mut self, nr: u32, etag: String) -> (r: Steg)
        requires
            old(self).gyldig(),
            old(self).trinn == Trinn::Put,
            nr == old(self).mangler@[old(self).i as int],
        ensures
            final(self).gyldig(),
            final(self).bytes == old(self).bytes,
            final(self).antall == old(self).antall,
            final(self).mangler@ == old(self).mangler@,
            final(self).omstart_brukt == old(self).omstart_brukt,
            final(self).resume.samme_opplasting(old(self).resume),
            final(self).resume.deler@ == old(self).resume.deler@.push((nr, etag)),
            ({
                let naa = old(self).hentet + del_lengde(old(self).bytes as int, nr as int);
                let laster = melding(final(self).hentet, old(self).bytes, Status::Laster);
                &&& final(self).hentet == if naa < old(self).bytes {
                    naa
                } else {
                    old(self).bytes as int
                }
                &&& final(self).i == old(self).i + 1
                &&& if final(self).i < old(self).bolk {
                    &&& final(self).trinn == Trinn::Del
                    &&& final(self).bolk == old(self).bolk
                    &&& r.er(
                        true,
                        seq![laster],
                        Handling::Del { nr: old(self).mangler@[old(self).i + 1] },
                    )
                } else if final(self).i < old(self).mangler@.len() {
                    &&& final(self).trinn == Trinn::Signer
                    &&& r.er(
                        true,
                        seq![laster],
                        Handling::Signer { fra: final(self).i, til: final(self).bolk },
                    )
                } else {
                    &&& final(self).trinn == Trinn::Sett
                    &&& r.er(
                        true,
                        seq![laster, melding(old(self).bytes, old(self).bytes, Status::Setter)],
                        Handling::Sett,
                    )
                }
            }),
    {
        assert(1 <= nr <= self.antall) by {
            reveal(plan);
        }
        let lengde: u64 = self.utstrekning(nr).1;
        let ghost foer = self.resume.deler@;
        let ghost d = (nr, etag);
        self.resume.deler.push((nr, etag));
        let naa: u64 = self.hentet + lengde;
        let etter: u64 = if naa < self.bytes {
            naa
        } else {
            self.bytes
        };
        proof {
            en_del_til(foer, d);
            plan_etter_del(
                self.mangler@,
                self.i as int,
                numre(foer),
                self.antall,
                self.bytes,
                self.hentet,
                etter,
            );
        }
        self.hentet = etter;
        self.i = self.i + 1;
        let mut meldinger: Vec<Melding> = Vec::new();
        meldinger.push(
            Melding { hentet: self.hentet, total: self.bytes, status: Status::Laster },
        );
        let handling = if self.i < self.bolk {
            self.trinn = Trinn::Del;
            Handling::Del { nr: self.mangler[self.i] }
        } else if self.i < self.mangler.len() {
            self.trinn = Trinn::Signer;
            self.bolk = if self.mangler.len() - self.i > BOLK {
                self.i + BOLK
            } else {
                self.mangler.len()
            };
            Handling::Signer { fra: self.i, til: self.bolk }
        } else {
            self.trinn = Trinn::Sett;
            meldinger.push(
                Melding { hentet: self.bytes, total: self.bytes, status: Status::Setter },
            );
            Handling::Sett
        };
        proof {
            let laster = melding(self.hentet, self.bytes, Status::Laster);
            if self.trinn == Trinn::Sett {
                assert(meldinger@ =~= seq![
                    laster,
                    melding(self.bytes, self.bytes, Status::Setter),
                ]);
            } else {
                assert(meldinger@ =~= seq![laster]);
            }
        }
        Steg { husk: true, meldinger, pause_ms: 0, handling }
    }

    /// The portal has put the parts together, or has not. In the first case the upload is
    /// over: the key of the file, the bytes that were sent and where a version for playback
    /// can be put.
    pub fn satt_sammen(&mut self, svar: &Svar) -> (r: Result<Lagret, String>)
        requires
            old(self).gyldig(),
            old(self).trinn == Trinn::Sett,
        ensures
            final(self).gyldig(),
            final(self).trinn == Trinn::Over,
            final(self).resume == old(self).resume,
            mindre(final(self).igjen(), old(self).igjen()),
            match r {
                Ok(l) => {
                    &&& svar.ok
                    &&& l.key@ == old(self).resume.original_key@
                    &&& l.hentet == old(self).hentet
                    &&& old(self).delbar() ==> l.hentet == old(self).bytes
                    &&& l.proxy_put@ == old(self).resume.proxy_put@
                },
                Err(t) => !svar.ok && t@ == error_eller(
                    valgfri(svar.error),
                    "Kunne ikke sette sammen fila"@,
                ),
            },
    {
        self.trinn = Trinn::Over;
        if svar.ok {
            Ok(
                Lagret {
                    key: self.resume.original_key.clone(),
                    hentet: self.hentet,
                    proxy_put: self.resume.proxy_put.clone(),
                },
            )
        } else {
            Err(melding_eller(&svar.error, "Kunne ikke sette sammen fila"))
        }
    }
}

proof fn like_rekker(a: Seq<u32>, b: Seq<u32>)
    requires
        forall|j: int, k: int| 0 <= j < k < a.len() ==> a[j] < a[k],
        forall|j: int, k: int| 0 <= j < k < b.len() ==> b[j] < b[k],
        forall|n: u32| #[trigger] a.contains(n) <==> b.contains(n),
    ensures
        a == b,
    decreases a.len(),
{
    if a.len() == 0 {
        if b.len() > 0 {
            assert(b.contains(b[0]));
            assert(a.contains(b[0]));
        }
        assert(a =~= b);
    } else {
        assert(a.contains(a.last()));
        assert(b.contains(a.last()));
        assert(b.contains(b.last()));
        assert(a.contains(b.last()));
        assert(a.last() == b.last());
        let a1 = a.drop_last();
        let b1 = b.drop_last();
        assert forall|n: u32| #[trigger] a1.contains(n) <==> b1.contains(n) by {
            if a1.contains(n) {
                let j = choose|j: int| 0 <= j < a1.len() && a1[j] == n;
                assert(a[j] == n);
                assert(a.contains(n));
                let k = choose|k: int| 0 <= k < b.len() && b[k] == n;
                assert(b1[k] == n);
            }
            if b1.contains(n) {
                let j = choose|j: int| 0 <= j < b1.len() && b1[j] == n;
                assert(b[j] == n);
                assert(b.contains(n) && a.contains(n));
                let k = choose|k: int| 0 <= k < a.len() && a[k] == n;
                assert(a1[k] == n);
            }
        }
        like_rekker(a1, b1);
        assert(a =~= a1.push(a.last()));
        assert(b =~= b1.push(b.last()));
    }
}

/// An upload goes on where it was cut off: wherever that was, the parts that a new start
/// from what is remembered finds missing are those that were still to be sent.
pub proof fn fortsetter_der_den_slapp(m: Multipart)
    requires
        m.gyldig(),
        m.trinn != Trinn::Start,
        m.trinn != Trinn::Over,
    ensures
        manglende(numre(m.resume.deler@), m.antall as nat) == m.mangler@.skip(m.i as int),
{
    reveal(plan);
    let ferdige = numre(m.resume.deler@);
    let a = manglende(ferdige, m.antall as nat);
    let b = m.mangler@.skip(m.i as int);
    manglende_er_resten(ferdige, m.antall as nat);
    assert forall|n: u32| #[trigger] a.contains(n) <==> b.contains(n) by {
        if a.contains(n) {
            let j = choose|j: int| 0 <= j < a.len() && a[j] == n;
            assert(1 <= n <= m.antall && !ferdige.contains(n));
            let k = choose|k: int|
                m.i <= k < m.mangler@.len() && #[trigger] m.mangler@[k] == n;
            assert(b[k - m.i] == n);
        }
        if b.contains(n) {
            let k = choose|k: int| 0 <= k < b.len() && b[k] == n;
            assert(m.mangler@[k + m.i] == n);
        }
    }
    like_rekker(a, b);
}

/// The report on a part that is on its way, with `sendt` of its bytes sent after the
/// `hentet` of the parts before it, each 150 milliseconds.
pub fn underveis(hentet: u64, bytes: u64, sendt: u64, siden_ms: u64) -> (r: Option<Melding>)
    requires
        hentet + sendt <= u64::MAX,
    ensures
        r == if siden_ms > MELD_MS {
            Some(
                melding(
                    if hentet + sendt < bytes {
                        (hentet + sendt) as u64
                    } else {
                        bytes
                    },
                    bytes,
                    Status::Laster,
                ),
            )
        } else {
            None
        },
{
    if siden_ms > MELD_MS {
        let naa: u64 = hentet + sendt;
        let hentet: u64 = if naa < bytes {
            naa
        } else {
            bytes
        };
        Some(Melding { hentet, total: bytes, status: Status::Laster })
    } else {
        None
    }
}

/// The parts are put together only when the storage has each of them, and by then every
/// byte counts as sent.
pub proof fn settes_sammen_naar_alt_er_der(m: Multipart)
    requires
        m.gyldig(),
        m.trinn == Trinn::Sett,
    ensures
        m.delbar() ==> m.hentet == m.bytes,
        forall|n: u32|
            1 <= n <= m.antall ==> #[trigger] numre(m.resume.deler@).contains(n),
{
    reveal(plan);
}

/// A part that the storage has is never sent again.
pub proof fn ferdige_deler_sendes_ikke(m: Multipart)
    requires
        m.gyldig(),
        m.trinn == Trinn::Put,
    ensures
        !numre(m.resume.deler@).contains(m.mangler@[m.i as int]),
{
    reveal(plan);
}

/// The place after the piece of a part that begins at `pos`; none at the end of the part.
pub fn neste_bit(pos: usize, lengde: usize) -> (r: Option<usize>)
    ensures
        r is None <==> pos >= lengde,
        r is Some ==> r->0 == if pos + BIT_BYTES < lengde {
            pos + BIT_BYTES
        } else {
            lengde as int
        },
        r is Some ==> pos < r->0 <= lengde && r->0 - pos <= 256 * 1024 && (r->0 - pos < 256 * 1024
            ==> r->0 == lengde),
{
    if pos >= lengde {
        None
    } else if lengde - pos > BIT_BYTES {
        Some(pos + BIT_BYTES)
    } else {
        Some(lengde)
    }
}

/// What the pieces of a part from `pos` on are, put together.
pub open spec fn biter(b: Seq<u8>, pos: int) -> Seq<u8>
    decreases b.len() - pos,
{
    if pos < 0 || pos >= b.len() {
        Seq::empty()
    } else if pos + BIT_BYTES < b.len() {
        b.subrange(pos, pos + BIT_BYTES) + biter(b, pos + BIT_BYTES)
    } else {
        b.subrange(pos, b.len() as int)
    }
}

/// The pieces of a part are the part.
pub proof fn bitene_er_delen(b: Seq<u8>, pos: int)
    requires
        0 <= pos <= b.len(),
    ensures
        biter(b, pos) == b.skip(pos),
    decreases b.len() - pos,
{
    if pos < b.len() && pos + BIT_BYTES < b.len() {
        bitene_er_delen(b, pos + BIT_BYTES);
    }
    assert(biter(b, pos) =~= b.skip(pos));
}

/// The body of a request for a new upload.
pub fn start_kropp(navn: &str, mime: &str, bytes: u64, sist: u64, mappe_id: &str) -> (r: Kropp)
    ensures
        r.modell() == filbeskrivelse(
            map!["action"@ => Json::Tekst("multipart-start"@)],
            navn@,
            mime@,
            bytes,
            sist,
            mappe_id@,
        ),
        r.modell().contains_key("action"@) && r.modell()["action"@] == Json::Tekst(
            "multipart-start"@,
        ),
        beskriver(r.modell(), navn@, mime@, bytes, sist, mappe_id@),
{
    proof {
        ulike_feltnavn();
    }
    let mut k = Kropp::ny();
    k.sett_tekst("action", "multipart-start");
    fil_kropp(&mut k, navn, mime, bytes, sist, mappe_id);
    k
}

/// Whether `r` is the new upload that an answer tells of: it has no parts yet.
pub open spec fn ny_opplasting(r: Resume, svar: Svar, bytes: u64, mappe_id: Seq<char>) -> bool {
    &&& Some(r.upload_id@) == valgfri(svar.upload_id)
    &&& Some(r.original_key@) == valgfri(svar.original_key)
    &&& r.mappe_id@ == mappe_id
    &&& r.bytes == bytes
    &&& r.deler@.len() == 0
    &&& r.proxy_put@ == error_eller(valgfri(svar.proxy_put_url), Seq::empty())
}

/// What is wrong with the answer to a request for a new upload.
pub open spec fn start_feil(
    status: u16,
    upload_id: Option<Seq<char>>,
    original_key: Option<Seq<char>>,
    error: Option<Seq<char>>,
) -> Option<Seq<char>> {
    if status == 401 || status == 403 {
        Some("Ikke tilgang — logg inn på nytt"@)
    } else if upload_id is Some && original_key is Some {
        None
    } else {
        Some(error_eller(error, "multipart-start feilet"@))
    }
}

/// The new upload that an answer tells of, or what is wrong with it.
pub fn start_dom(status: u16, svar: Svar, bytes: u64, mappe_id: &str) -> (r: Result<
    Resume,
    String,
>)
    ensures
        match start_feil(
            status,
            valgfri(svar.upload_id),
            valgfri(svar.original_key),
            valgfri(svar.error),
        ) {
            Some(t) => r is Err && r->Err_0@ == t,
            None => r is Ok && ny_opplasting(r->Ok_0, svar, bytes, mappe_id@),
        },
{
    if status == 401 || status == 403 {
        return Err("Ikke tilgang — logg inn på nytt".to_owned());
    }
    match (svar.upload_id, svar.original_key) {
        (Some(upload_id), Some(original_key)) => Ok(
            Resume {
                upload_id,
                original_key,
                mappe_id: mappe_id.to_owned(),
                bytes,
                deler: Vec::new(),
                proxy_put: match svar.proxy_put_url {
                    Some(u) => u,
                    None => String::new(),
                },
            },
        ),
        _ => Err(melding_eller(&svar.error, "multipart-start feilet")),
    }
}

/// The new upload, from the portal's answer.
pub fn multipart_start(status: u16, kropp: &[u8], bytes: u64, mappe_id: &str) -> (r: Result<
    Resume,
    Svarfeil,
>)
    ensures
        match json_av(kropp@) {
            None => r is Err && r->Err_0 is IkkeJson,
            Some(j) => match start_feil(
                status,
                tekst_i(j, "uploadId"@),
                tekst_i(j, "originalKey"@),
                tekst_i(j, "error"@),
            ) {
                Some(t) => r is Err && ordene(r->Err_0) == Some(t),
                None => {
                    &&& r is Ok
                    &&& Some(r->Ok_0.upload_id@) == tekst_i(j, "uploadId"@)
                    &&& Some(r->Ok_0.original_key@) == tekst_i(j, "originalKey"@)
                    &&& r->Ok_0.mappe_id@ == mappe_id@
                    &&& r->Ok_0.bytes == bytes
                    &&& r->Ok_0.deler@.len() == 0
                    &&& r->Ok_0.proxy_put@ == error_eller(
                        tekst_i(j, "proxyPutUrl"@),
                        Seq::empty(),
                    )
                },
            },
        },
{
    match Svar::les(kropp) {
        None => Err(Svarfeil::IkkeJson),
        Some(svar) => match start_dom(status, svar, bytes, mappe_id) {
            Ok(r) => Ok(r),
            Err(t) => Err(Svarfeil::Melding(t)),
        },
    }
}

/// The body of a request for addresses for the missing parts from `fra` up to `til`.
pub fn deler_kropp(m: &Multipart, fra: usize, til: usize) -> (r: Kropp)
    requires
        fra <= til <= m.mangler@.len(),
    ensures
        r.modell() == map![
            "action"@ => Json::Tekst("multipart-deler"@),
            "originalKey"@ => Json::Tekst(m.resume.original_key@),
            "uploadId"@ => Json::Tekst(m.resume.upload_id@),
            "deler"@ => Json::Liste(
                m.mangler@.subrange(fra as int, til as int).map_values(
                    |n: u32| Json::Tall(Some(n as u64)),
                ),
            )
        ],
        r.modell()["originalKey"@] == Json::Tekst(m.resume.original_key@),
        r.modell()["uploadId"@] == Json::Tekst(m.resume.upload_id@),
        r.modell()["deler"@] matches Json::Liste(l) && l.len() == til - fra && forall|k: int|
            0 <= k < til - fra ==> #[trigger] l[k] == Json::Tall(Some(m.mangler@[fra + k] as u64)),
{
    proof {
        ulike_feltnavn();
        reveal_strlit("uploadId");
        reveal_strlit("deler");
        assert("uploadId"@.len() == 8 && "deler"@.len() == 5);
    }
    let mut numre: Vec<u32> = Vec::new();
    let mut i: usize = fra;
    while i < til
        invariant
            fra <= i <= til <= m.mangler@.len(),
            numre@ == m.mangler@.subrange(fra as int, i as int),
        decreases til - i,
    {
        numre.push(m.mangler[i]);
        i += 1;
        assert(numre@ =~= m.mangler@.subrange(fra as int, i as int));
    }
    let mut k = Kropp::ny();
    k.sett_tekst("action", "multipart-deler");
    k.sett_tekst("originalKey", m.resume.original_key.as_str());
    k.sett_tekst("uploadId", m.resume.upload_id.as_str());
    k.sett("deler", Felt::Numre(numre));
    k
}

/// The body of a request to put the parts together.
pub fn sett_kropp(r: &Resume) -> (ut: Kropp)
    ensures
        ut.modell() == map![
            "action"@ => Json::Tekst("multipart-fullfor"@),
            "originalKey"@ => Json::Tekst(r.original_key@),
            "uploadId"@ => Json::Tekst(r.upload_id@),
            "deler"@ => Json::Liste(
                par(r.deler@).map_values(|d: (u32, Seq<char>)| del_json(d.0, d.1)),
            )
        ],
        ut.modell()["originalKey"@] == Json::Tekst(r.original_key@),
        ut.modell()["uploadId"@] == Json::Tekst(r.upload_id@),
        ut.modell()["deler"@] matches Json::Liste(l) && l.len() == r.deler@.len() && forall|k: int|
            0 <= k < l.len() ==> (#[trigger] l[k] matches Json::Objekt(d) && d["nr"@] == Json::Tall(
                Some(r.deler@[k].0 as u64),
            ) && d["etag"@] == Json::Tekst(r.deler@[k].1@)),
{
    proof {
        ulike_feltnavn();
        reveal_strlit("uploadId");
        reveal_strlit("deler");
        reveal_strlit("nr");
        reveal_strlit("etag");
        assert("uploadId"@.len() == 8 && "deler"@.len() == 5);
        assert("nr"@.len() == 2 && "etag"@.len() == 4);
    }
    let mut deler: Vec<(u32, String)> = Vec::new();
    let mut i: usize = 0;
    while i < r.deler.len()
        invariant
            i <= r.deler@.len(),
            par(deler@) == par(r.deler@).take(i as int),
        decreases r.deler@.len() - i,
    {
        let ghost foer = deler@;
        let nr: u32 = r.deler[i].0;
        let etag = r.deler[i].1.clone();
        deler.push((nr, etag));
        assert(par(deler@) =~= par(foer).push((nr, etag@)));
        i += 1;
        assert(par(deler@) =~= par(r.deler@).take(i as int));
    }
    assert(par(deler@) =~= par(r.deler@));
    let ghost liste = deler@;
    let mut k = Kropp::ny();
    k.sett_tekst("action", "multipart-fullfor");
    k.sett_tekst("originalKey", r.original_key.as_str());
    k.sett_tekst("uploadId", r.upload_id.as_str());
    assert(liste.map_values(|d: (u32, String)| del_json(d.0, d.1@)) =~= par(
        r.deler@,
    ).map_values(|d: (u32, Seq<char>)| del_json(d.0, d.1))) by {
        assert forall|q: int| 0 <= q < liste.len() implies (liste[q].0, liste[q].1@) == par(
            r.deler@,
        )[q] by {
            assert(par(liste)[q] == par(r.deler@)[q]);
        }
    }
    k.sett("deler", Felt::Deler(deler));
    k
}

/// The address that is given for a part stands beside its very number in the portal's
/// answer, and beside none of that number further down; there is none exactly where the
/// number does not stand there.
pub proof fn adressen_er_delens(deler: Seq<(u32, Seq<char>)>, nr: u32)
    ensures
        url_av(deler, nr) is None <==> forall|i: int|
            0 <= i < deler.len() ==> (#[trigger] deler[i]).0 != nr,
        url_av(deler, nr) matches Some(u) ==> exists|i: int|
            0 <= i < deler.len() && #[trigger] deler[i] == (nr, u) && forall|j: int|
                i < j < deler.len() ==> (#[trigger] deler[j]).0 != nr,
    decreases deler.len(),
{
    if deler.len() > 0 {
        let foran = deler.drop_last();
        adressen_er_delens(foran, nr);
        if deler.last().0 == nr {
            assert(deler[deler.len() - 1] == (nr, deler.last().1));
        } else {
            assert forall|i: int| 0 <= i < foran.len() implies foran[i] == #[trigger] deler[i] by {
            }
            if url_av(foran, nr) is Some {
                let u = url_av(foran, nr)->0;
                let i = choose|i: int|
                    0 <= i < foran.len() && #[trigger] foran[i] == (nr, u) && forall|j: int|
                        i < j < foran.len() ==> (#[trigger] foran[j]).0 != nr;
                assert(deler[i] == (nr, u));
                assert forall|j: int| i < j < deler.len() implies (#[trigger] deler[j]).0 != nr by {
                    if j < foran.len() {
                        assert(foran[j].0 != nr);
                    }
                }
            } else {
                assert forall|i: int| 0 <= i < deler.len() implies (#[trigger] deler[i]).0 != nr by {
                    if i < foran.len() {
                        assert(foran[i].0 != nr);
                    }
                }
            }
        }
    }
}

/// Where an answer names each part once, each part is sent to the address beside it.
pub proof fn hver_del_til_sin_adresse(deler: Seq<(u32, Seq<char>)>, i: int)
    requires
        0 <= i < deler.len(),
        forall|j: int, k: int|
            0 <= j < k < deler.len() ==> (#[trigger] deler[j]).0 != (#[trigger] deler[k]).0,
    ensures
        url_av(deler, deler[i].0) == Some(deler[i].1),
{
    let nr = deler[i].0;
    adressen_er_delens(deler, nr);
    assert(deler[i].0 == nr);
    let u = url_av(deler, nr)->0;
    let k = choose|k: int|
        0 <= k < deler.len() && #[trigger] deler[k] == (nr, u) && forall|j: int|
            k < j < deler.len() ==> (#[trigger] deler[j]).0 != nr;
    if k < i {
        assert(deler[k].0 != deler[i].0);
    } else if i < k {
        assert(deler[i].0 != deler[k].0);
    }
}

/// A part is 64 MiB, the last what is left of the file: the part `nr` begins behind all the
/// others before it, and a file has as many as it takes.
pub proof fn deler_paa_64_mib(bytes: int, nr: int)
    requires
        0 < bytes,
        1 <= nr <= antall_deler(bytes),
    ensures
        del_start(nr) == (nr - 1) * (64 * 1024 * 1024),
        nr < antall_deler(bytes) ==> del_lengde(bytes, nr) == 64 * 1024 * 1024,
        nr == antall_deler(bytes) ==> del_start(nr) + del_lengde(bytes, nr) == bytes,
        0 < del_lengde(bytes, nr) <= 64 * 1024 * 1024,
        (antall_deler(bytes) - 1) * (64 * 1024 * 1024) < bytes <= antall_deler(bytes) * (64 * 1024
            * 1024),
{
    delene_er_fila(bytes);
}

/// Addresses are asked for at most twenty parts at a time, for no more than are missing, and
/// for fewer than twenty only where these are all.
pub proof fn tjue_om_gangen(i: int, alle: int)
    requires
        0 <= i < alle,
    ensures
        i < bolkslutt(i, alle) <= alle,
        bolkslutt(i, alle) - i <= 20,
        bolkslutt(i, alle) - i < 20 ==> bolkslutt(i, alle) == alle,
{
}

/// What counts as sent when an upload goes on: 64 MiB for each part that the storage has, but
/// never more than the file.
pub proof fn ferdige_deler_teller(deler: Seq<(u32, String)>, bytes: u64)
    ensures
        Multipart::sendt_foer(deler, bytes) <= bytes,
        Multipart::sendt_foer(deler, bytes) <= numre(deler).len() * (64 * 1024 * 1024),
        Multipart::sendt_foer(deler, bytes) == bytes || Multipart::sendt_foer(deler, bytes)
            == numre(deler).len() * (64 * 1024 * 1024),
{
}

/// A new upload is refused without access, whatever else the answer says; with access it is
/// there exactly where the answer names it and its key, and else the portal's own words say
/// why, where it has any.
pub proof fn ny_opplasting_eller_ord(
    status: u16,
    upload_id: Option<Seq<char>>,
    original_key: Option<Seq<char>>,
    error: Option<Seq<char>>,
)
    ensures
        ({
            let f = start_feil(status, upload_id, original_key, error);
            let uten_tilgang = status == 401 || status == 403;
            &&& f is None <==> !uten_tilgang && upload_id is Some && original_key is Some
            &&& uten_tilgang ==> f == Some("Ikke tilgang — logg inn på nytt"@)
            &&& !uten_tilgang && f is Some && error is Some ==> f == error
            &&& !uten_tilgang && f is Some && error is None ==> f == Some(
                "multipart-start feilet"@,
            )
        }),
{
}

/// The words for a part that failed name the part, and those for a refusal to sign are the
/// portal's own, where it has any.
pub proof fn ordene_nevner_delen(nr: u32, error: Option<Seq<char>>)
    ensures
        crate::tekst::inneholder_tekst(feiltekst(Feil::Del(nr), error), desimaler(nr as nat)),
        error is Some ==> Some(feiltekst(Feil::Signering, error)) == error,
        feiltekst(Feil::Avbrutt, error) == "Avbrutt"@,
{
    let t = feiltekst(Feil::Del(nr), error);
    let n = desimaler(nr as nat);
    let i = "Del "@.len() as int;
    assert(t.subrange(i, i + n.len()) =~= n);
    assert(crate::tekst::forekommer_fra(t, n, i));
}

/// An upload goes on with what is missing: at most the first twenty of the missing parts are
/// signed, or the parts are put together where none is missing; and the first report after
/// those that were due says how much counts as sent.
pub proof fn gaar_videre_med_resten(m: Multipart, s: Steg, husk: bool, foran: Seq<Melding>)
    requires
        m.gyldig(),
        m.i == 0,
        m.gaar_videre(s, husk, foran),
    ensures
        s.husk == husk,
        s.pause_ms == 0,
        s.handling == Handling::Sett <==> m.mangler@.len() == 0,
        m.mangler@.len() > 0 ==> s.handling == (Handling::Signer {
            fra: 0,
            til: (if m.mangler@.len() > 20 {
                20
            } else {
                m.mangler@.len()
            }) as usize,
        }),
        s.meldinger@.len() > foran.len(),
        s.meldinger@.take(foran.len() as int) == foran,
        s.meldinger@[foran.len() as int] == (Melding {
            hentet: m.hentet,
            total: m.bytes,
            status: Status::Laster,
        }),
        m.mangler@.len() == 0 ==> s.meldinger@.last() == (Melding {
            hentet: m.bytes,
            total: m.bytes,
            status: Status::Setter,
        }),
{
    assert(s.meldinger@.take(foran.len() as int) =~= foran);
}

/// A new upload is the one that the answer names, of this file and to this folder, and the
/// storage has none of its parts.
pub proof fn ny_opplasting_er_svarets(r: Resume, svar: Svar, bytes: u64, mappe_id: Seq<char>)
    requires
        ny_opplasting(r, svar, bytes, mappe_id),
    ensures
        svar.upload_id matches Some(u) && u@ == r.upload_id@,
        svar.original_key matches Some(k) && k@ == r.original_key@,
        r.bytes == bytes,
        r.mappe_id@ == mappe_id,
        numre(r.deler@) == Set::<u32>::empty(),
        svar.proxy_put_url matches Some(p) ==> r.proxy_put@ == p@,
        svar.proxy_put_url is None ==> r.proxy_put@.len() == 0,
{
    assert(numre(r.deler@) =~= Set::<u32>::empty());
}

/// The parts that the storage has are those that are remembered, each by its number.
pub proof fn husket_del_er_i_lageret(deler: Seq<(u32, String)>, n: u32)
    ensures
        numre(deler).contains(n) <==> exists|k: int| 0 <= k < deler.len() && (#[trigger] deler[k]).0
            == n,
{
}

/// What the storage's answer to a part leads to. A part that was taken with a tag is
/// remembered with its number and the tag without its quotes, and counts as sent; one that was
/// taken without a tag, or is forbidden, has failed at once; and any other is sent again after
/// a pause, but is tried no more than three times.
pub proof fn lagerets_svar_paa_en_del(
    foer: Multipart,
    etter: Multipart,
    s: Steg,
    status: Option<u16>,
    etag: Option<Seq<char>>,
    ren: Seq<char>,
)
    requires
        foer.gyldig(),
        foer.trinn == Trinn::Put,
        put_forer_til(foer, etter, s, status, etag),
    ensures
        ({
            let nr = foer.mangler@[foer.i as int];
            let tatt = status matches Some(kode) && 200 <= kode <= 299;
            let n = foer.resume.deler@.len();
            let feilet = Handling::Feilet(Feil::Del(nr));
            &&& tatt && etag is Some ==> {
                &&& s.husk
                &&& etter.resume.deler@.len() == n + 1
                &&& etter.resume.deler@[n as int].0 == nr
                &&& ren.len() > 0 && ren[0] != '"' && ren.last() != '"' && (etag == Some(ren) || etag
                    == Some(seq!['"'] + ren + seq!['"'])) ==> etter.resume.deler@[n as int].1@
                    == ren
                &&& forall|k: int|
                    0 <= k < n ==> (#[trigger] etter.resume.deler@[k]).0 == foer.resume.deler@[k].0
                        && etter.resume.deler@[k].1@ == foer.resume.deler@[k].1@
                &&& foer.hentet <= etter.hentet <= foer.bytes
                &&& etter.i == foer.i + 1
                &&& s.pause_ms == 0
                &&& s.handling is Del || s.handling is Signer || s.handling == Handling::Sett
                &&& s.handling == Handling::Sett <==> etter.i == foer.mangler@.len()
            }
            &&& !(tatt && etag is Some) ==> {
                &&& !s.husk
                &&& etter.resume == foer.resume
                &&& etter.hentet == foer.hentet
                &&& etter.i == foer.i
            }
            &&& tatt && etag is None || status == Some(403u16) ==> s.handling == feilet
                && s.pause_ms == 0
            &&& !tatt && status != Some(403u16) ==> s.pause_ms == 1200
            &&& !tatt && status != Some(403u16) && foer.forsok >= 3 ==> s.handling == feilet
            &&& !tatt && status != Some(403u16) && foer.forsok < 3 ==> s.handling
                == Handling::SendIgjen && etter.forsok == foer.forsok + 1
        }),
{
    let tatt = status is Some && gikk_bra(status->0);
    if tatt && etag is Some {
        let n = foer.resume.deler@.len() as int;
        let x = par(foer.resume.deler@);
        let y = par(etter.resume.deler@);
        assert(y.len() == etter.resume.deler@.len());
        assert(y[n] == (etter.resume.deler@[n].0, etter.resume.deler@[n].1@));
        assert forall|k: int| 0 <= k < n implies (#[trigger] etter.resume.deler@[k]).0
            == foer.resume.deler@[k].0 && etter.resume.deler@[k].1@ == foer.resume.deler@[k].1@ by {
            assert(y[k] == x[k]);
        }
        if ren.len() > 0 && ren[0] != '"' && ren.last() != '"' {
            uten_anforselstegn(ren);
        }
        assert(del_lengde(foer.bytes as int, foer.mangler@[foer.i as int] as int) >= 0) by {
            reveal(plan);
        }
    }
}

proof fn uten_anforselstegn(ren: Seq<char>)
    requires
        ren.len() > 0,
        ren[0] != '"',
        ren.last() != '"',
    ensures
        uten_start(uten_slutt(ren, '"'), '"') == ren,
        uten_start(uten_slutt(seq!['"'] + ren + seq!['"'], '"'), '"') == ren,
{
    let hele = seq!['"'] + ren + seq!['"'];
    let a = seq!['"'] + ren;
    assert(hele.drop_last() =~= a);
    assert(a.last() == ren.last());
    assert(uten_slutt(a, '"') == a);
    assert(uten_slutt(hele, '"') == a);
    assert(a.drop_first() =~= ren);
    assert(uten_start(ren, '"') == ren);
}

/// What the portal's addresses lead to: with any, the next missing part comes; without any,
/// the upload is dead, and is begun anew the first time and given up the second.
pub proof fn dod_opplasting_erstattes_en_gang(
    foer: Multipart,
    etter: Multipart,
    s: Steg,
    adresser: nat,
)
    requires
        signering_forer_til(foer, etter, s, adresser),
    ensures
        adresser > 0 <==> s.handling == (Handling::Del { nr: foer.mangler@[foer.i as int] }),
        adresser == 0 && !foer.omstart_brukt <==> s.handling == Handling::Start,
        adresser == 0 && foer.omstart_brukt <==> s.handling == Handling::Feilet(Feil::Signering),
        adresser == 0 ==> etter.omstart_brukt,
        adresser > 0 ==> etter.omstart_brukt == foer.omstart_brukt,
        !s.husk,
{
}

} // verus!
