//! Folder synchronisation: which files of a local folder are to be sent, and what has been
//! sent already.
//!
//! A folder is looked through again and again. A file is sent once it has stood unchanged
//! from one look to the next; what has been sent is remembered, also across a restart.
use crate::json::{
    json_av, les_json, Json, les_tekstliste, liste_leses_som_skrevet, skriv_tekstliste, tekstliste,
};
use crate::kalender::{er_klokkeslett, naa_sekunder};
use crate::navn::{desimaler_ulike, trygt, trygt_navn};
use crate::opplasting::OppFil;
use crate::tekst::{desimal, desimaler, siffer, tekster};
use vstd::hash_map::StringHashMap;
use vstd::hash_set::StringHashSet;
use vstd::prelude::*;
use vstd::string::*;

verus! {

/// Seconds between two looks.
pub const SYNK_PAUSE_S: u64 = 20;

/// Seconds that a file must have been left alone.
pub const ROLIG_S: u64 = 10;

/// A local folder that is mirrored to a folder in the library.
#[derive(Clone, Debug)]
pub struct Synk {
    pub id: String,
    pub lokal: String,
    pub mappe_id: String,
    pub navn: String,
    pub aktiv: bool,
}

/// Whether a folder is to be looked through: it is switched on and has a path.
pub fn skal_lope(s: &Synk) -> (r: bool)
    ensures
        r == (s.aktiv && s.lokal@.len() > 0),
{
    s.aktiv && !s.lokal.as_str().is_empty()
}

/// The key of a file in a given state: its path, its size and when it was changed.
pub open spec fn nokkel_av(sti: Seq<char>, bytes: nat, mtime: nat) -> Seq<char> {
    sti + "|"@ + desimaler(bytes) + "|"@ + desimaler(mtime)
}

/// Writes the key of a file in a given state.
pub fn nokkelord(sti: &str, bytes: u64, mtime: u64) -> (r: String)
    ensures
        r@ == nokkel_av(sti@, bytes as nat, mtime as nat),
{
    let mut ut = sti.to_owned();
    ut.append("|");
    ut.append(desimal(bytes).as_str());
    ut.append("|");
    ut.append(desimal(mtime).as_str());
    ut
}

/// Writes the key of a file that was last changed at `mtime`.
pub fn nokkel(f: &OppFil, mtime: u64) -> (r: String)
    ensures
        r@ == nokkel_av(f.sti@, f.bytes as nat, mtime as nat),
{
    nokkelord(f.sti.as_str(), f.bytes, mtime)
}

proof fn desimaler_er_sifre(n: nat)
    ensures
        forall|i: int| 0 <= i < desimaler(n).len() ==> #[trigger] desimaler(n)[i] != '|',
    decreases n,
{
    if n >= 10 {
        desimaler_er_sifre(n / 10);
        assert forall|i: int| 0 <= i < desimaler(n).len() implies #[trigger] desimaler(n)[i]
            != '|' by {
            if i < desimaler(n / 10).len() {
                assert(desimaler(n)[i] == desimaler(n / 10)[i]);
            } else {
                assert(desimaler(n)[i] == siffer(n % 10));
            }
        }
    }
}

/// What stands before and after the last bar is given by the whole.
proof fn siste_strek(a: Seq<char>, b: Seq<char>, c: Seq<char>, d: Seq<char>)
    requires
        a + "|"@ + b == c + "|"@ + d,
        forall|i: int| 0 <= i < b.len() ==> #[trigger] b[i] != '|',
        forall|i: int| 0 <= i < d.len() ==> #[trigger] d[i] != '|',
    ensures
        a == c,
        b == d,
{
    reveal_strlit("|");
    assert("|"@ =~= seq!['|']);
    let x = a + "|"@ + b;
    let y = c + "|"@ + d;
    assert(x.len() == a.len() + 1 + b.len());
    assert(y.len() == c.len() + 1 + d.len());
    assert(x[a.len() as int] == '|');
    assert(y[c.len() as int] == '|');
    if a.len() < c.len() {
        let i = c.len() - a.len() - 1;
        assert(x[c.len() as int] == b[i]);
    }
    if c.len() < a.len() {
        let i = a.len() - c.len() - 1;
        assert(y[a.len() as int] == d[i]);
    }
    assert(a.len() == c.len());
    assert(a =~= x.take(a.len() as int));
    assert(c =~= y.take(c.len() as int));
    assert(b =~= x.skip(a.len() as int + 1));
    assert(d =~= y.skip(c.len() as int + 1));
}

/// Two files, or two states of one file, never have the same key.
pub proof fn nokkel_er_entydig(
    sti1: Seq<char>,
    bytes1: nat,
    mtime1: nat,
    sti2: Seq<char>,
    bytes2: nat,
    mtime2: nat,
)
    requires
        nokkel_av(sti1, bytes1, mtime1) == nokkel_av(sti2, bytes2, mtime2),
    ensures
        sti1 == sti2,
        bytes1 == bytes2,
        mtime1 == mtime2,
{
    desimaler_er_sifre(bytes1);
    desimaler_er_sifre(bytes2);
    desimaler_er_sifre(mtime1);
    desimaler_er_sifre(mtime2);
    siste_strek(
        sti1 + "|"@ + desimaler(bytes1),
        desimaler(mtime1),
        sti2 + "|"@ + desimaler(bytes2),
        desimaler(mtime2),
    );
    siste_strek(sti1, desimaler(bytes1), sti2, desimaler(bytes2));
    desimaler_ulike(bytes1, bytes2);
    desimaler_ulike(mtime1, mtime2);
}

/// The name, in the application's data folder, of the file that remembers what a
/// synchronised folder has sent.
pub fn synk_ferdig_sti(id: &str) -> (r: String)
    ensures
        r@ == "synk-"@ + trygt(id@) + ".json"@,
{
    let mut ut = "synk-".to_owned();
    ut.append(trygt_navn(id).as_str());
    ut.append(".json");
    ut
}

/// A set of texts.
pub struct Tekstsett {
    sett: StringHashSet,
}

impl Tekstsett {
    /// What is in the set.
    pub closed spec fn alle(&self) -> Set<Seq<char>> {
        self.sett@
    }

    /// The empty set.
    pub fn ny() -> (r: Tekstsett)
        ensures
            r.alle() == Set::<Seq<char>>::empty(),
    {
        Tekstsett { sett: StringHashSet::new() }
    }

    /// Whether a text is in the set.
    pub fn har(&self, s: &str) -> (r: bool)
        ensures
            r == self.alle().contains(s@),
    {
        self.sett.contains(s)
    }

    /// Puts a text in the set.
    pub fn legg_til(&mut self, s: &str) -> (r: bool)
        ensures
            final(self).alle() == old(self).alle().insert(s@),
            r == !old(self).alle().contains(s@),
    {
        self.sett.insert(s.to_owned())
    }

    /// Takes a text out of the set.
    pub fn fjern(&mut self, s: &str)
        ensures
            final(self).alle() == old(self).alle().remove(s@),
    {
        self.sett.remove(s);
    }
}

/// The texts of a list as a set.
pub open spec fn mengde(v: Seq<Seq<char>>) -> Set<Seq<char>> {
    Set::new(|s: Seq<char>| v.contains(s))
}

/// What a file that remembers says: the keys in it, or none where there is no such file or
/// it cannot be read.
pub open spec fn husker(fil: Option<Seq<u8>>) -> Set<Seq<char>> {
    match fil {
        Some(b) => match json_av(b) {
            Some(j) => match tekstliste(j) {
                Some(l) => mengde(l),
                None => Set::empty(),
            },
            None => Set::empty(),
        },
        None => Set::empty(),
    }
}

/// The keys of the files that a synchronised folder has sent.
pub struct Husket {
    liste: Vec<String>,
    sett: Tekstsett,
}

impl Husket {
    /// The keys.
    pub closed spec fn alle(&self) -> Set<Seq<char>> {
        self.sett.alle()
    }

    /// The list and the set hold the same keys.
    pub closed spec fn gyldig(&self) -> bool {
        self.sett.alle() =~= mengde(tekster(self.liste@))
    }

    /// No key is remembered.
    pub fn tom() -> (r: Husket)
        ensures
            r.gyldig(),
            r.alle() == Set::<Seq<char>>::empty(),
    {
        Husket { liste: Vec::new(), sett: Tekstsett::ny() }
    }

    /// Whether a key is remembered.
    pub fn har(&self, k: &str) -> (r: bool)
        ensures
            r == self.alle().contains(k@),
    {
        self.sett.har(k)
    }

    /// Remembers a key.
    pub fn husk(&mut self, k: String)
        requires
            old(self).gyldig(),
        ensures
            final(self).gyldig(),
            final(self).alle() == old(self).alle().insert(k@),
    {
        let ghost foer = tekster(self.liste@);
        if self.sett.legg_til(k.as_str()) {
            self.liste.push(k);
            proof {
                let etter = tekster(self.liste@);
                assert(etter =~= foer.push(k@));
                assert forall|s: Seq<char>|
                    mengde(etter).contains(s) == mengde(foer).insert(k@).contains(s) by {
                    if foer.contains(s) {
                        let i = choose|i: int| 0 <= i < foer.len() && foer[i] == s;
                        assert(etter[i] == s);
                    }
                    assert(etter[foer.len() as int] == k@);
                }
            }
        } else {
            assert(self.sett.alle() =~= old(self).sett.alle());
        }
    }

    /// What the file that remembers says.
    pub fn les(fil: Option<&[u8]>) -> (r: Husket)
        ensures
            r.gyldig(),
            r.alle() == husker(
                match fil {
                    Some(b) => Some(b@),
                    None => None,
                },
            ),
    {
        let lest = match fil {
            Some(b) => match les_json(b) {
                Ok(v) => les_tekstliste(&v),
                Err(_) => None,
            },
            None => None,
        };
        let mut ut = Husket::tom();
        match lest {
            None => {},
            Some(l) => {
                let ghost alle = tekster(l@);
                let mut i: usize = 0;
                assert(ut.alle() =~= mengde(alle.take(0)));
                while i < l.len()
                    invariant
                        i <= l@.len(),
                        alle == tekster(l@),
                        ut.gyldig(),
                        ut.alle() == mengde(alle.take(i as int)),
                    decreases l@.len() - i,
                {
                    let k = l[i].clone();
                    ut.husk(k);
                    proof {
                        let foer = alle.take(i as int);
                        let etter = alle.take(i + 1);
                        assert(etter =~= foer.push(k@));
                        assert forall|s: Seq<char>|
                            mengde(etter).contains(s) == mengde(foer).insert(k@).contains(s) by {
                            if foer.contains(s) {
                                let q = choose|q: int| 0 <= q < foer.len() && foer[q] == s;
                                assert(etter[q] == s);
                            }
                            assert(etter[foer.len() as int] == k@);
                        }
                        assert(mengde(etter) =~= mengde(foer).insert(k@));
                    }
                    i += 1;
                }
                assert(alle.take(i as int) =~= alle);
            },
        }
        ut
    }

    /// Writes what is remembered, so that it is read again as it is.
    pub fn skriv(&self) -> (r: Option<Vec<u8>>)
        requires
            self.gyldig(),
        ensures
            r is Some,
            r is Some ==> husker(Some(r->0@)) == self.alle(),
    {
        proof {
            liste_leses_som_skrevet(tekster(self.liste@));
        }
        match skriv_tekstliste(&self.liste) {
            Ok(b) => {
                assert(husker(Some(b@)) =~= self.alle());
                Some(b)
            },
            Err(_) => None,
        }
    }
}

/// The size of each file in a folder and when it was changed, by its path.
pub struct Skann {
    stier: StringHashMap<(u64, u64)>,
}

impl Skann {
    /// What was seen.
    pub closed spec fn sett(&self) -> Map<Seq<char>, (u64, u64)> {
        self.stier@
    }

    /// Nothing was seen.
    pub fn ny() -> (r: Skann)
        ensures
            r.sett() == Map::<Seq<char>, (u64, u64)>::empty(),
    {
        Skann { stier: StringHashMap::new() }
    }

    /// A file was seen.
    pub fn se(&mut self, sti: &str, bytes: u64, mtime: u64)
        ensures
            final(self).sett() == old(self).sett().insert(sti@, (bytes, mtime)),
    {
        self.stier.insert(sti.to_owned(), (bytes, mtime));
    }

    /// Whether a file was seen as it is.
    pub fn uendret(&self, sti: &str, bytes: u64, mtime: u64) -> (r: bool)
        ensures
            r == (self.sett().contains_key(sti@) && self.sett()[sti@] == (bytes, mtime)),
    {
        match self.stier.get(sti) {
            Some(s) => s.0 == bytes && s.1 == mtime,
            None => false,
        }
    }
}

/// Whether a file has been written to its end: it was the same at the last look, and has
/// been left alone for a while.
pub open spec fn stabil(
    f: OppFil,
    mtime: u64,
    forrige: Map<Seq<char>, (u64, u64)>,
    klokke: u64,
) -> bool {
    &&& forrige.contains_key(f.sti@)
    &&& forrige[f.sti@] == (f.bytes, mtime)
    &&& klokke >= mtime + ROLIG_S
}

/// Whether a file is to be sent: it has not been sent as it is, is not empty, has been
/// written to its end, and is not on its way already.
pub open spec fn skal_meldes(
    f: OppFil,
    mtime: u64,
    klokke: u64,
    ferdige: Set<Seq<char>>,
    forrige: Map<Seq<char>, (u64, u64)>,
    meldt: Set<Seq<char>>,
) -> bool {
    &&& !ferdige.contains(nokkel_av(f.sti@, f.bytes as nat, mtime as nat))
    &&& f.bytes > 0
    &&& stabil(f, mtime, forrige, klokke)
    &&& !meldt.contains(f.sti@)
}

/// Decides whether a file is to be sent, and if so notes that it is on its way.
pub fn vurder(
    f: &OppFil,
    mtime: u64,
    klokke: u64,
    ferdige: &Husket,
    forrige: &Skann,
    meldt: &mut Tekstsett,
) -> (r: bool)
    ensures
        r == skal_meldes(
            *f,
            mtime,
            klokke,
            ferdige.alle(),
            forrige.sett(),
            old(meldt).alle(),
        ),
        final(meldt).alle() == if r {
            old(meldt).alle().insert(f.sti@)
        } else {
            old(meldt).alle()
        },
        r ==> forrige.sett().contains_key(f.sti@) && forrige.sett()[f.sti@].0 == f.bytes
            && forrige.sett()[f.sti@].1 == mtime && klokke - mtime >= 10 && f.bytes > 0,
        forrige.sett().contains_key(f.sti@) && forrige.sett()[f.sti@] == (f.bytes, mtime) && klokke
            - mtime >= 10 && f.bytes > 0 && !ferdige.alle().contains(
            nokkel_av(f.sti@, f.bytes as nat, mtime as nat),
        ) && !old(meldt).alle().contains(f.sti@) ==> r,
        old(meldt).alle().contains(f.sti@) ==> !r,
        ferdige.alle().contains(nokkel_av(f.sti@, f.bytes as nat, mtime as nat)) ==> !r,
{
    if ferdige.har(nokkel(f, mtime).as_str()) || f.bytes == 0 {
        return false;
    }
    let rolig = klokke >= mtime && klokke - mtime >= ROLIG_S;
    if !forrige.uendret(f.sti.as_str(), f.bytes, mtime) || !rolig {
        return false;
    }
    if meldt.har(f.sti.as_str()) {
        return false;
    }
    meldt.legg_til(f.sti.as_str());
    true
}

/// What a file is: its path, its path below the folder, and its size.
pub open spec fn filmodell(f: OppFil) -> (Seq<char>, Seq<char>, u64) {
    (f.sti@, f.relativ@, f.bytes)
}

/// What each file of a list is.
pub open spec fn filene(v: Seq<OppFil>) -> Seq<(Seq<char>, Seq<char>, u64)> {
    v.map_values(|f: OppFil| filmodell(f))
}

/// What a look sees.
pub open spec fn sett_av(naa: Seq<(OppFil, u64)>) -> Map<Seq<char>, (u64, u64)>
    decreases naa.len(),
{
    if naa.len() == 0 {
        Map::empty()
    } else {
        sett_av(naa.drop_last()).insert(
            naa.last().0.sti@,
            (naa.last().0.bytes, naa.last().1),
        )
    }
}

/// The files that are on their way after a look, and those that the look adds; the clock
/// is read for each file.
pub open spec fn funn_av(
    naa: Seq<(OppFil, u64)>,
    klokker: Seq<u64>,
    ferdige: Set<Seq<char>>,
    forrige: Map<Seq<char>, (u64, u64)>,
    meldt: Set<Seq<char>>,
) -> (Set<Seq<char>>, Seq<(Seq<char>, Seq<char>, u64)>)
    decreases naa.len(),
{
    if naa.len() == 0 {
        (meldt, Seq::empty())
    } else {
        let (m, nye) = funn_av(naa.drop_last(), klokker.drop_last(), ferdige, forrige, meldt);
        let (f, mtime) = naa.last();
        if skal_meldes(f, mtime, klokker.last(), ferdige, forrige, m) {
            (m.insert(f.sti@), nye.push(filmodell(f)))
        } else {
            (m, nye)
        }
    }
}

fn kopi(f: &OppFil) -> (r: OppFil)
    ensures
        filmodell(r) == filmodell(*f),
{
    OppFil { sti: f.sti.clone(), relativ: f.relativ.clone(), bytes: f.bytes }
}

/// Looks through a folder: the files that are to be sent, and what was seen. The machine's
/// clock is read for each file; which points in time it shows is left unsaid.
pub fn synk_runde(
    naa: &Vec<(OppFil, u64)>,
    ferdige: &Husket,
    forrige: &Skann,
    meldt: &mut Tekstsett,
) -> (r: (Vec<OppFil>, Skann))
    ensures
        r.1.sett() == sett_av(naa@),
        exists|klokker: Seq<u64>|
            klokker.len() == naa@.len() && (forall|k: int|
                0 <= k < klokker.len() ==> er_klokkeslett(#[trigger] klokker[k])) && (
            final(meldt).alle(), filene(r.0@)) == #[trigger] funn_av(
                naa@,
                klokker,
                ferdige.alle(),
                forrige.sett(),
                old(meldt).alle(),
            ),
{
    let ghost mut klokker: Seq<u64> = Seq::empty();
    let ghost m0 = meldt.alle();
    let mut nye: Vec<OppFil> = Vec::new();
    let mut denne = Skann::ny();
    let mut i: usize = 0;
    assert(filene(nye@) =~= Seq::empty());
    assert(naa@.take(0) =~= Seq::empty());
    while i < naa.len()
        invariant
            i <= naa@.len(),
            klokker.len() == i,
            forall|k: int| 0 <= k < klokker.len() ==> er_klokkeslett(#[trigger] klokker[k]),
            denne.sett() == sett_av(naa@.take(i as int)),
            (meldt.alle(), filene(nye@)) == funn_av(
                naa@.take(i as int),
                klokker,
                ferdige.alle(),
                forrige.sett(),
                m0,
            ),
        decreases naa@.len() - i,
    {
        let f = &naa[i].0;
        let mtime: u64 = naa[i].1;
        let klokke: u64 = naa_sekunder();
        denne.se(f.sti.as_str(), f.bytes, mtime);
        let ghost foer = nye@;
        let ny = vurder(f, mtime, klokke, ferdige, forrige, meldt);
        if ny {
            let k = kopi(f);
            nye.push(k);
            assert(filene(nye@) =~= filene(foer).push(filmodell(*f)));
        }
        proof {
            assert(naa@.take(i + 1).drop_last() =~= naa@.take(i as int));
            assert(klokker.push(klokke).drop_last() =~= klokker);
            klokker = klokker.push(klokke);
        }
        i += 1;
    }
    assert(naa@.take(i as int) =~= naa@);
    (nye, denne)
}

/// What a look reports.
#[derive(Debug)]
pub struct SynkFunn {
    pub id: String,
    pub mappe_id: String,
    pub navn: String,
    pub filer: Vec<OppFil>,
}

/// What a look reports: nothing where there is nothing to send.
pub fn funn(synk: &Synk, nye: Vec<OppFil>) -> (r: Option<SynkFunn>)
    ensures
        r is None <==> nye@.len() == 0,
        r is Some ==> {
            &&& r->0.id@ == synk.id@
            &&& r->0.mappe_id@ == synk.mappe_id@
            &&& r->0.navn@ == synk.navn@
            &&& r->0.filer == nye
        },
{
    if nye.len() == 0 {
        None
    } else {
        Some(
            SynkFunn {
                id: synk.id.clone(),
                mappe_id: synk.mappe_id.clone(),
                navn: synk.navn.clone(),
                filer: nye,
            },
        )
    }
}

/// Whether a path is among those of these files.
pub open spec fn er_blant_filene(sti: Seq<char>, filer: Seq<(OppFil, u64)>) -> bool {
    exists|i: int| 0 <= i < filer.len() && (#[trigger] filer[i]).0.sti@ == sti
}

/// Whether a key is that of one of these files.
pub open spec fn er_nokkel_blant(k: Seq<char>, filer: Seq<(OppFil, u64)>) -> bool {
    exists|i: int|
        0 <= i < filer.len() && k == nokkel_av(
            (#[trigger] filer[i]).0.sti@,
            filer[i].0.bytes as nat,
            filer[i].1 as nat,
        )
}

/// The job for these files is over: they are no longer on their way, and where it went
/// well they are remembered as they are.
pub fn synk_merk(
    filer: &Vec<(OppFil, u64)>,
    ok: bool,
    meldt: &mut Tekstsett,
    ferdige: &mut Husket,
)
    requires
        old(ferdige).gyldig(),
    ensures
        final(ferdige).gyldig(),
        forall|s: Seq<char>|
            #[trigger] final(meldt).alle().contains(s) <==> old(meldt).alle().contains(s)
                && !er_blant_filene(s, filer@),
        forall|k: Seq<char>|
            #[trigger] final(ferdige).alle().contains(k) <==> old(ferdige).alle().contains(k) || ok
                && er_nokkel_blant(k, filer@),
{
    let ghost m0 = meldt.alle();
    let ghost f0 = ferdige.alle();
    let mut i: usize = 0;
    while i < filer.len()
        invariant
            i <= filer@.len(),
            ferdige.gyldig(),
            forall|s: Seq<char>|
                #[trigger] meldt.alle().contains(s) <==> m0.contains(s) && !er_blant_filene(
                    s,
                    filer@.take(i as int),
                ),
            forall|k: Seq<char>|
                #[trigger] ferdige.alle().contains(k) <==> f0.contains(k) || ok && er_nokkel_blant(
                    k,
                    filer@.take(i as int),
                ),
        decreases filer@.len() - i,
    {
        let f = &filer[i].0;
        let mtime: u64 = filer[i].1;
        meldt.fjern(f.sti.as_str());
        if ok {
            ferdige.husk(nokkel(f, mtime));
        }
        proof {
            let a = filer@.take(i as int);
            let b = filer@.take(i + 1);
            assert forall|s: Seq<char>|
                er_blant_filene(s, b) == (er_blant_filene(s, a) || s == f.sti@) by {
                if er_blant_filene(s, a) {
                    let q = choose|q: int| 0 <= q < a.len() && (#[trigger] a[q]).0.sti@ == s;
                    assert(b[q].0.sti@ == s);
                }
                assert(b[i as int].0.sti@ == f.sti@);
                if er_blant_filene(s, b) && s != f.sti@ {
                    let q = choose|q: int| 0 <= q < b.len() && (#[trigger] b[q]).0.sti@ == s;
                    assert(a[q].0.sti@ == s);
                }
            }
            let k0 = nokkel_av(f.sti@, f.bytes as nat, mtime as nat);
            assert forall|k: Seq<char>|
                er_nokkel_blant(k, b) == (er_nokkel_blant(k, a) || k == k0) by {
                if er_nokkel_blant(k, a) {
                    let q = choose|q: int|
                        0 <= q < a.len() && k == nokkel_av(
                            (#[trigger] a[q]).0.sti@,
                            a[q].0.bytes as nat,
                            a[q].1 as nat,
                        );
                    assert(k == nokkel_av(b[q].0.sti@, b[q].0.bytes as nat, b[q].1 as nat));
                }
                assert(k0 == nokkel_av(
                    b[i as int].0.sti@,
                    b[i as int].0.bytes as nat,
                    b[i as int].1 as nat,
                ));
                if er_nokkel_blant(k, b) && k != k0 {
                    let q = choose|q: int|
                        0 <= q < b.len() && k == nokkel_av(
                            (#[trigger] b[q]).0.sti@,
                            b[q].0.bytes as nat,
                            b[q].1 as nat,
                        );
                    assert(k == nokkel_av(a[q].0.sti@, a[q].0.bytes as nat, a[q].1 as nat));
                }
            }
        }
        i += 1;
    }
    assert(filer@.take(i as int) =~= filer@);
}

/// What synchronisation knows while the application runs: the paths of the files that are
/// on their way.
pub struct SynkTilstand {
    pub meldt: Tekstsett,
}

impl Default for SynkTilstand {
    fn default() -> (r: SynkTilstand)
        ensures
            r.meldt.alle() == Set::<Seq<char>>::empty(),
    {
        SynkTilstand { meldt: Tekstsett::ny() }
    }
}

/// Every file that a look reports is in the folder, has not been sent as it is, is not
/// empty, has stood unchanged since the last look and for a while, and was not on its way;
/// from then on it is.
pub proof fn bare_ferdig_skrevne_meldes(
    naa: Seq<(OppFil, u64)>,
    klokker: Seq<u64>,
    ferdige: Set<Seq<char>>,
    forrige: Map<Seq<char>, (u64, u64)>,
    meldt: Set<Seq<char>>,
    j: int,
) -> (i: int)
    requires
        klokker.len() == naa.len(),
        0 <= j < funn_av(naa, klokker, ferdige, forrige, meldt).1.len(),
    ensures
        0 <= i < naa.len(),
        ({
            let (m, nye) = funn_av(naa, klokker, ferdige, forrige, meldt);
            let (f, mtime) = naa[i];
            &&& nye[j] == filmodell(f)
            &&& skal_meldes(f, mtime, klokker[i], ferdige, forrige, meldt)
            &&& m.contains(f.sti@)
        }),
    decreases naa.len(),
{
    let (m0, nye0) = funn_av(naa.drop_last(), klokker.drop_last(), ferdige, forrige, meldt);
    underveis_vokser(naa.drop_last(), klokker.drop_last(), ferdige, forrige, meldt);
    if j < nye0.len() {
        let i = bare_ferdig_skrevne_meldes(
            naa.drop_last(),
            klokker.drop_last(),
            ferdige,
            forrige,
            meldt,
            j,
        );
        i
    } else {
        naa.len() - 1
    }
}

proof fn underveis_vokser(
    naa: Seq<(OppFil, u64)>,
    klokker: Seq<u64>,
    ferdige: Set<Seq<char>>,
    forrige: Map<Seq<char>, (u64, u64)>,
    meldt: Set<Seq<char>>,
)
    ensures
        meldt.subset_of(funn_av(naa, klokker, ferdige, forrige, meldt).0),
    decreases naa.len(),
{
    if naa.len() > 0 {
        underveis_vokser(naa.drop_last(), klokker.drop_last(), ferdige, forrige, meldt);
    }
}

/// No file is reported twice: the files that a look reports have different paths, and none
/// was on its way before.
pub proof fn ingen_meldes_to_ganger(
    naa: Seq<(OppFil, u64)>,
    klokker: Seq<u64>,
    ferdige: Set<Seq<char>>,
    forrige: Map<Seq<char>, (u64, u64)>,
    meldt: Set<Seq<char>>,
)
    requires
        klokker.len() == naa.len(),
    ensures
        ({
            let (m, nye) = funn_av(naa, klokker, ferdige, forrige, meldt);
            &&& forall|j: int|
                0 <= j < nye.len() ==> !meldt.contains((#[trigger] nye[j]).0) && m.contains(
                    nye[j].0,
                )
            &&& forall|j: int, k: int|
                0 <= j < k < nye.len() ==> (#[trigger] nye[j]).0 != (#[trigger] nye[k]).0
        }),
    decreases naa.len(),
{
    if naa.len() > 0 {
        ingen_meldes_to_ganger(
            naa.drop_last(),
            klokker.drop_last(),
            ferdige,
            forrige,
            meldt,
        );
        underveis_vokser(naa.drop_last(), klokker.drop_last(), ferdige, forrige, meldt);
    }
}

/// A file that was sent well is not sent again as it is, not even after a restart: with
/// `foer` remembered, the job for `filer` went well, `etter` was written to the file `b`,
/// and `b` is what is read when the folder is looked through.
pub proof fn sendt_fil_sendes_ikke_igjen(
    f: OppFil,
    mtime: u64,
    filer: Seq<(OppFil, u64)>,
    foer: Set<Seq<char>>,
    etter: Set<Seq<char>>,
    b: Seq<u8>,
    klokke: u64,
    forrige: Map<Seq<char>, (u64, u64)>,
    meldt: Set<Seq<char>>,
)
    requires
        er_nokkel_blant(nokkel_av(f.sti@, f.bytes as nat, mtime as nat), filer),
        forall|k: Seq<char>|
            #[trigger] etter.contains(k) <==> foer.contains(k) || er_nokkel_blant(k, filer),
        husker(Some(b)) == etter,
    ensures
        !skal_meldes(f, mtime, klokke, husker(Some(b)), forrige, meldt),
{
}

/// A file that has changed since it was sent has a key of its own, so that what is
/// remembered of the old state does not hold it back.
pub proof fn endret_fil_holdes_ikke_tilbake(
    sti: Seq<char>,
    bytes: nat,
    mtime: nat,
    ny_bytes: nat,
    ny_mtime: nat,
)
    requires
        bytes != ny_bytes || mtime != ny_mtime,
    ensures
        nokkel_av(sti, bytes, mtime) != nokkel_av(sti, ny_bytes, ny_mtime),
{
    if nokkel_av(sti, bytes, mtime) == nokkel_av(sti, ny_bytes, ny_mtime) {
        nokkel_er_entydig(sti, bytes, mtime, sti, ny_bytes, ny_mtime);
    }
}

/// A file is reported exactly where all of this holds: it is not empty; at the last look it
/// was there with the same size and the same time of change; that time is at least ten
/// seconds past; it has not been sent with this size and time; and it is not on its way.
pub proof fn meldes_naar_den_er_ferdig_skrevet(
    f: OppFil,
    mtime: u64,
    klokke: u64,
    ferdige: Set<Seq<char>>,
    forrige: Map<Seq<char>, (u64, u64)>,
    meldt: Set<Seq<char>>,
)
    ensures
        skal_meldes(f, mtime, klokke, ferdige, forrige, meldt) <==> {
            &&& f.bytes > 0
            &&& forrige.contains_key(f.sti@)
            &&& forrige[f.sti@].0 == f.bytes
            &&& forrige[f.sti@].1 == mtime
            &&& klokke - mtime >= 10
            &&& !ferdige.contains(
                f.sti@ + "|"@ + desimaler(f.bytes as nat) + "|"@ + desimaler(mtime as nat),
            )
            &&& !meldt.contains(f.sti@)
        },
{
}

/// What a look sees of a path is the size and the time of change of the file with that path,
/// the last of them where there are several; of a path that no file has it sees nothing.
pub proof fn et_blikk_ser_filene(naa: Seq<(OppFil, u64)>, sti: Seq<char>)
    ensures
        sett_av(naa).contains_key(sti) <==> exists|i: int|
            0 <= i < naa.len() && (#[trigger] naa[i]).0.sti@ == sti,
        sett_av(naa).contains_key(sti) ==> exists|i: int|
            0 <= i < naa.len() && (#[trigger] naa[i]).0.sti@ == sti && sett_av(naa)[sti] == (
                naa[i].0.bytes,
                naa[i].1,
            ) && forall|j: int| i < j < naa.len() ==> (#[trigger] naa[j]).0.sti@ != sti,
    decreases naa.len(),
{
    if naa.len() > 0 {
        let d = naa.drop_last();
        et_blikk_ser_filene(d, sti);
        if naa.last().0.sti@ == sti {
            assert(naa[naa.len() - 1].0.sti@ == sti);
        } else {
            if sett_av(d).contains_key(sti) {
                let i = choose|i: int|
                    0 <= i < d.len() && (#[trigger] d[i]).0.sti@ == sti && sett_av(d)[sti] == (
                        d[i].0.bytes,
                        d[i].1,
                    ) && forall|j: int| i < j < d.len() ==> (#[trigger] d[j]).0.sti@ != sti;
                assert(naa[i].0.sti@ == sti);
                assert forall|j: int| i < j < naa.len() implies (#[trigger] naa[j]).0.sti@ != sti by {
                    if j < d.len() {
                        assert(d[j].0.sti@ != sti);
                    }
                }
            }
            if exists|i: int| 0 <= i < naa.len() && (#[trigger] naa[i]).0.sti@ == sti {
                let i = choose|i: int| 0 <= i < naa.len() && (#[trigger] naa[i]).0.sti@ == sti;
                assert(d[i].0.sti@ == sti);
            }
        }
    }
}

/// No file is forgotten: a file that is to be reported, as the clock stood when it was looked
/// at, is on its way after the look. Only what was on its way or is reported is.
pub proof fn ingen_ferdig_fil_glemmes(
    naa: Seq<(OppFil, u64)>,
    klokker: Seq<u64>,
    ferdige: Set<Seq<char>>,
    forrige: Map<Seq<char>, (u64, u64)>,
    meldt: Set<Seq<char>>,
    i: int,
)
    requires
        klokker.len() == naa.len(),
        0 <= i < naa.len(),
        naa[i].0.bytes > 0,
        forrige.contains_key(naa[i].0.sti@),
        forrige[naa[i].0.sti@] == (naa[i].0.bytes, naa[i].1),
        klokker[i] - naa[i].1 >= 10,
        !ferdige.contains(nokkel_av(naa[i].0.sti@, naa[i].0.bytes as nat, naa[i].1 as nat)),
        !meldt.contains(naa[i].0.sti@),
    ensures
        ({
            let (m, nye) = funn_av(naa, klokker, ferdige, forrige, meldt);
            &&& m.contains(naa[i].0.sti@)
            &&& exists|j: int| 0 <= j < nye.len() && (#[trigger] nye[j]).0 == naa[i].0.sti@
        }),
    decreases naa.len(),
{
    let (m, nye) = funn_av(naa, klokker, ferdige, forrige, meldt);
    underveis_er_meldt(naa, klokker, ferdige, forrige, meldt, naa[i].0.sti@);
    let d = naa.drop_last();
    let k = klokker.drop_last();
    let (m0, nye0) = funn_av(d, k, ferdige, forrige, meldt);
    if i < d.len() {
        ingen_ferdig_fil_glemmes(d, k, ferdige, forrige, meldt, i);
        assert(m0.contains(naa[i].0.sti@));
    }
}

proof fn underveis_er_meldt(
    naa: Seq<(OppFil, u64)>,
    klokker: Seq<u64>,
    ferdige: Set<Seq<char>>,
    forrige: Map<Seq<char>, (u64, u64)>,
    meldt: Set<Seq<char>>,
    sti: Seq<char>,
)
    requires
        klokker.len() == naa.len(),
        !meldt.contains(sti),
    ensures
        ({
            let (m, nye) = funn_av(naa, klokker, ferdige, forrige, meldt);
            m.contains(sti) ==> exists|j: int| 0 <= j < nye.len() && (#[trigger] nye[j]).0 == sti
        }),
    decreases naa.len(),
{
    if naa.len() > 0 {
        let d = naa.drop_last();
        let k = klokker.drop_last();
        underveis_er_meldt(d, k, ferdige, forrige, meldt, sti);
        let (m0, nye0) = funn_av(d, k, ferdige, forrige, meldt);
        let (m, nye) = funn_av(naa, klokker, ferdige, forrige, meldt);
        if m0.contains(sti) {
            let j = choose|j: int| 0 <= j < nye0.len() && (#[trigger] nye0[j]).0 == sti;
            assert(nye[j].0 == sti);
        } else if m.contains(sti) {
            assert(nye[nye.len() - 1].0 == sti);
        }
    }
}

/// What is reported of a file is the file: where it is, its path below the folder, and its
/// size.
pub proof fn det_meldte_er_fila(f: OppFil)
    ensures
        filmodell(f).0 == f.sti@,
        filmodell(f).1 == f.relativ@,
        filmodell(f).2 == f.bytes,
{
}

/// When a job is over, what is remembered of it is each of its files as it was, by its path,
/// its size and its time of change, and nothing else; and what is no longer on its way is
/// what has the path of one of them.
pub proof fn det_sendte_huskes(
    filer: Seq<(OppFil, u64)>,
    sti: Seq<char>,
    bytes: u64,
    mtime: u64,
)
    ensures
        er_nokkel_blant(nokkel_av(sti, bytes as nat, mtime as nat), filer) <==> exists|i: int|
            0 <= i < filer.len() && (#[trigger] filer[i]).0.sti@ == sti && filer[i].0.bytes == bytes
                && filer[i].1 == mtime,
        er_blant_filene(sti, filer) <==> exists|i: int|
            0 <= i < filer.len() && (#[trigger] filer[i]).0.sti@ == sti,
{
    let k = nokkel_av(sti, bytes as nat, mtime as nat);
    if er_nokkel_blant(k, filer) {
        let i = choose|i: int|
            0 <= i < filer.len() && k == nokkel_av(
                (#[trigger] filer[i]).0.sti@,
                filer[i].0.bytes as nat,
                filer[i].1 as nat,
            );
        nokkel_er_entydig(
            sti,
            bytes as nat,
            mtime as nat,
            filer[i].0.sti@,
            filer[i].0.bytes as nat,
            filer[i].1 as nat,
        );
    }
}

/// What a file that remembers says is what stands in its list, and nothing where it is no
/// list of texts or is not there.
pub proof fn husker_det_som_staar(b: Seq<u8>, l: Seq<Json>, s: Seq<char>)
    ensures
        husker(None) == Set::<Seq<char>>::empty(),
        json_av(b) is None ==> husker(Some(b)) == Set::<Seq<char>>::empty(),
        json_av(b) == Some(Json::Liste(l)) && (forall|i: int|
            0 <= i < l.len() ==> (#[trigger] l[i]) is Tekst) ==> (husker(Some(b)).contains(s)
            <==> l.contains(Json::Tekst(s))),
        json_av(b) == Some(Json::Liste(l)) && (exists|i: int|
            0 <= i < l.len() && !((#[trigger] l[i]) is Tekst)) ==> husker(Some(b)) == Set::<
            Seq<char>,
        >::empty(),
{
    if json_av(b) == Some(Json::Liste(l)) && (forall|i: int|
        0 <= i < l.len() ==> (#[trigger] l[i]) is Tekst) {
        let v = l.map_values(|x: Json| x->Tekst_0);
        if v.contains(s) {
            let i = choose|i: int| 0 <= i < v.len() && v[i] == s;
            assert(l[i] is Tekst);
            assert(l[i] == Json::Tekst(s));
        }
        if l.contains(Json::Tekst(s)) {
            let i = choose|i: int| 0 <= i < l.len() && l[i] == Json::Tekst(s);
            assert(v[i] == s);
        }
    }
}

} // verus!
