//! Making folders in the library: each folder on the way to a file is made once, and is
//! then remembered.
use crate::json::{Json, Kropp, Svar};
use crate::portal::{error_eller, mappe_kropp, melding_eller};
use crate::tekst::{
    splitt, splittes_ved_skillet, splittet, splittet_uten_skiller, tekster,
    uten_skille_ett_stykke, valgfri,
};
use vstd::hash_map::StringHashMap;
use vstd::prelude::*;
use vstd::string::*;

verus! {

/// The pieces that are not empty.
pub open spec fn ikke_tomme(v: Seq<Seq<char>>) -> Seq<Seq<char>>
    decreases v.len(),
{
    if v.len() == 0 {
        Seq::empty()
    } else if v.last().len() == 0 {
        ikke_tomme(v.drop_last())
    } else {
        ikke_tomme(v.drop_last()).push(v.last())
    }
}

/// The names of the folders in a path.
pub open spec fn mappenavn(sti: Seq<char>) -> Seq<Seq<char>> {
    ikke_tomme(splittet(sti, seq!['/']))
}

/// The names of folders as a path.
pub open spec fn sti_av(deler: Seq<Seq<char>>) -> Seq<char>
    decreases deler.len(),
{
    if deler.len() == 0 {
        Seq::empty()
    } else if deler.len() == 1 {
        deler[0]
    } else {
        sti_av(deler.drop_last()) + "/"@ + deler.last()
    }
}

/// Reads the names of the folders in a path.
pub fn les_mappenavn(sti: &str) -> (r: Vec<String>)
    ensures
        tekster(r@) == mappenavn(sti@),
{
    let skille: [char; 1] = ['/'];
    let alle = splitt(sti, &skille);
    assert(skille@ =~= seq!['/']);
    let ghost t = tekster(alle@);
    let mut ut: Vec<String> = Vec::new();
    let mut i: usize = 0;
    assert(tekster(ut@) =~= ikke_tomme(t.take(0)));
    while i < alle.len()
        invariant
            t == tekster(alle@),
            i <= alle@.len(),
            tekster(ut@) == ikke_tomme(t.take(i as int)),
        decreases alle@.len() - i,
    {
        assert(t.take(i + 1).drop_last() =~= t.take(i as int));
        assert(t.take(i + 1).last() == alle@[i as int]@);
        if !alle[i].as_str().is_empty() {
            let ghost foer = ut@;
            let del = alle[i].clone();
            ut.push(del);
            assert(tekster(ut@) =~= tekster(foer).push(del@));
        }
        i += 1;
    }
    assert(t.take(i as int) =~= t);
    ut
}

/// The folders that are known to be in the library, by their paths below the folder that
/// a job goes to.
pub struct Mappeminne {
    ider: StringHashMap<String>,
}

impl Mappeminne {
    /// The number of each known folder.
    pub closed spec fn kjent(&self) -> Map<Seq<char>, Seq<char>> {
        self.ider@.map_values(|s: String| s@)
    }

    /// No folder is known.
    pub fn ny() -> (r: Mappeminne)
        ensures
            r.kjent() == Map::<Seq<char>, Seq<char>>::empty(),
    {
        let r = Mappeminne { ider: StringHashMap::new() };
        assert(r.kjent() =~= Map::<Seq<char>, Seq<char>>::empty());
        r
    }

    /// The number of a folder, where it is known.
    pub fn finn(&self, sti: &str) -> (r: Option<String>)
        ensures
            valgfri(r) == if self.kjent().contains_key(sti@) {
                Some(self.kjent()[sti@])
            } else {
                None
            },
    {
        match self.ider.get(sti) {
            Some(id) => Some(id.clone()),
            None => None,
        }
    }

    /// Remembers a folder.
    pub fn husk(&mut self, sti: &str, id: &str)
        ensures
            final(self).kjent() == old(self).kjent().insert(sti@, id@),
    {
        self.ider.insert(sti.to_owned(), id.to_owned());
        assert(self.kjent() =~= old(self).kjent().insert(sti@, id@));
    }
}

/// How many of the folders, from `i` on, are known before the first that is not.
pub open spec fn forste_ukjente(
    deler: Seq<Seq<char>>,
    kjent: Map<Seq<char>, Seq<char>>,
    i: int,
) -> int
    decreases deler.len() - i,
{
    if i < 0 || i >= deler.len() || !kjent.contains_key(sti_av(deler.take(i + 1))) {
        i
    } else {
        forste_ukjente(deler, kjent, i + 1)
    }
}

/// The way down to the folder of a file.
#[derive(Debug)]
pub struct Mappegang {
    pub rot: String,
    pub deler: Vec<String>,
    /// How many of the folders have been passed.
    pub i: usize,
    /// The path so far.
    pub sti: String,
    /// The number of the folder so far.
    pub forelder: String,
}

impl Mappegang {
    /// Whether the way fits what is known.
    pub open spec fn gyldig(&self, kjent: Map<Seq<char>, Seq<char>>) -> bool {
        let deler = tekster(self.deler@);
        let sti = sti_av(deler.take(self.i as int));
        &&& self.i <= self.deler@.len()
        &&& self.sti@ == sti
        &&& forall|k: int| 0 <= k < deler.len() ==> (#[trigger] deler[k]).len() > 0
        &&& if self.i == 0 {
            self.forelder@ == self.rot@
        } else {
            kjent.contains_key(sti) && self.forelder@ == kjent[sti]
        }
    }

    /// The path that the next folder has.
    pub open spec fn neste_sti(&self) -> Seq<char> {
        sti_av(tekster(self.deler@).take(self.i + 1))
    }

    /// The way from the folder `rot` along a path.
    pub fn ny(rot: &str, relativ_dir: &str) -> (r: Mappegang)
        ensures
            r.rot@ == rot@,
            tekster(r.deler@) == mappenavn(relativ_dir@),
            r.i == 0,
            forall|kjent: Map<Seq<char>, Seq<char>>| r.gyldig(kjent),
    {
        let deler = les_mappenavn(relativ_dir);
        proof {
            ingen_tomme(splittet(relativ_dir@, seq!['/']));
            assert(tekster(deler@).take(0) =~= Seq::empty());
        }
        Mappegang {
            rot: rot.to_owned(),
            deler,
            i: 0,
            sti: String::new(),
            forelder: rot.to_owned(),
        }
    }

    /// The path of the next folder.
    fn videre(&self) -> (r: String)
        requires
            self.sti@ == sti_av(tekster(self.deler@).take(self.i as int)),
            forall|k: int|
                0 <= k < self.deler@.len() ==> (#[trigger] tekster(self.deler@)[k]).len() > 0,
            self.i < self.deler@.len(),
        ensures
            r@ == self.neste_sti(),
    {
        let ghost deler = tekster(self.deler@);
        proof {
            assert(deler.take(self.i + 1).drop_last() =~= deler.take(self.i as int));
            assert(deler.take(self.i + 1).last() == self.deler@[self.i as int]@);
            if self.i > 0 {
                sti_ikke_tom(deler.take(self.i as int));
            }
        }
        if self.sti.as_str().is_empty() {
            self.deler[self.i].clone()
        } else {
            let mut ut = self.sti.clone();
            ut.append("/");
            ut.append(self.deler[self.i].as_str());
            ut
        }
    }

    /// Passes the folders that are known. Where one is left, it is to be made.
    pub fn neste(&mut self, minne: &Mappeminne) -> (r: bool)
        requires
            old(self).gyldig(minne.kjent()),
        ensures
            final(self).gyldig(minne.kjent()),
            final(self).rot == old(self).rot,
            final(self).deler == old(self).deler,
            final(self).i == forste_ukjente(
                tekster(old(self).deler@),
                minne.kjent(),
                old(self).i as int,
            ),
            r == (final(self).i < final(self).deler@.len()),
            r ==> !minne.kjent().contains_key(final(self).neste_sti()),
    {
        while self.i < self.deler.len()
            invariant
                self.gyldig(minne.kjent()),
                self.rot == old(self).rot,
                self.deler == old(self).deler,
                forste_ukjente(tekster(self.deler@), minne.kjent(), self.i as int)
                    == forste_ukjente(
                    tekster(old(self).deler@),
                    minne.kjent(),
                    old(self).i as int,
                ),
            decreases self.deler@.len() - self.i,
        {
            let sti = self.videre();
            match minne.finn(sti.as_str()) {
                Some(id) => {
                    self.forelder = id;
                    self.sti = sti;
                    self.i = self.i + 1;
                },
                None => {
                    return true;
                },
            }
        }
        false
    }

    /// The body of the request for the next folder.
    pub fn kropp(&self) -> (r: Kropp)
        requires
            self.i < self.deler@.len(),
        ensures
            r.modell() == map![
                "navn"@ => Json::Tekst(self.deler@[self.i as int]@),
                "forelderId"@ => crate::json::mappe_av(self.forelder@)
            ],
    {
        mappe_kropp(self.deler[self.i].as_str(), self.forelder.as_str())
    }

    /// The portal has answered to the request for the next folder: the folder is
    /// remembered, or the words for what is wrong are given.
    pub fn laget(&mut self, minne: &mut Mappeminne, svar: &Svar) -> (r: Result<(), String>)
        requires
            old(self).gyldig(old(minne).kjent()),
            old(self).i < old(self).deler@.len(),
            !old(minne).kjent().contains_key(old(self).neste_sti()),
        ensures
            final(self).gyldig(final(minne).kjent()),
            final(self).rot == old(self).rot,
            final(self).deler == old(self).deler,
            match valgfri(svar.id) {
                Some(id) => {
                    &&& r is Ok
                    &&& final(minne).kjent() == old(minne).kjent().insert(old(self).neste_sti(), id)
                    &&& final(self).i == old(self).i + 1
                    &&& final(self).forelder@ == id
                },
                None => {
                    &&& r is Err
                    &&& r->Err_0@ == "Kunne ikke lage mappe «"@ + old(self).deler@[old(
                        self,
                    ).i as int]@ + "»: "@ + error_eller(valgfri(svar.error), "?"@)
                    &&& final(minne).kjent() == old(minne).kjent()
                    &&& final(self).i == old(self).i
                },
            },
    {
        let n: usize = self.deler.len();
        assert(self.i < n);
        match &svar.id {
            Some(id) => {
                let sti = self.videre();
                minne.husk(sti.as_str(), id.as_str());
                self.forelder = id.clone();
                self.sti = sti;
                self.i = self.i + 1;
                Ok(())
            },
            None => {
                let mut ut = "Kunne ikke lage mappe «".to_owned();
                ut.append(self.deler[self.i].as_str());
                ut.append("»: ");
                ut.append(melding_eller(&svar.error, "?").as_str());
                Err(ut)
            },
        }
    }
}

proof fn ingen_tomme(v: Seq<Seq<char>>)
    ensures
        forall|k: int| 0 <= k < ikke_tomme(v).len() ==> (#[trigger] ikke_tomme(v)[k]).len() > 0,
    decreases v.len(),
{
    if v.len() > 0 {
        ingen_tomme(v.drop_last());
        let foran = ikke_tomme(v.drop_last());
        assert forall|k: int| 0 <= k < ikke_tomme(v).len() implies (#[trigger] ikke_tomme(
            v,
        )[k]).len() > 0 by {
            if k < foran.len() {
                assert(ikke_tomme(v)[k] == foran[k]);
            }
        }
    }
}

proof fn sti_ikke_tom(deler: Seq<Seq<char>>)
    requires
        deler.len() > 0,
        forall|k: int| 0 <= k < deler.len() ==> (#[trigger] deler[k]).len() > 0,
    ensures
        sti_av(deler).len() > 0,
{
    assert(deler[0].len() > 0);
    reveal_strlit("/");
}

/// A folder that has been made is not made again: of folders whose paths are all known,
/// every later way passes each, whatever else has become known meanwhile.
pub proof fn kjente_mapper_lages_ikke(
    deler: Seq<Seq<char>>,
    kjent: Map<Seq<char>, Seq<char>>,
    i: int,
    n: int,
)
    requires
        0 <= i <= n <= deler.len(),
        forall|k: int|
            i <= k < n ==> #[trigger] kjent.contains_key(sti_av(deler.take(k + 1))),
    ensures
        forste_ukjente(deler, kjent, i) >= n,
    decreases n - i,
{
    if i < n {
        assert(kjent.contains_key(sti_av(deler.take(i + 1))));
        kjente_mapper_lages_ikke(deler, kjent, i + 1, n);
    } else {
        forste_ukjente_fra(deler, kjent, i);
    }
}

proof fn forste_ukjente_fra(deler: Seq<Seq<char>>, kjent: Map<Seq<char>, Seq<char>>, i: int)
    ensures
        forste_ukjente(deler, kjent, i) >= i,
    decreases deler.len() - i,
{
    if 0 <= i < deler.len() && kjent.contains_key(sti_av(deler.take(i + 1))) {
        forste_ukjente_fra(deler, kjent, i + 1);
    }
}

/// Whether these can be the names of folders: none is empty or holds a slash.
pub open spec fn er_navn(deler: Seq<Seq<char>>) -> bool {
    forall|k: int|
        0 <= k < deler.len() ==> (#[trigger] deler[k]).len() > 0 && !deler[k].contains('/')
}

/// What is read from a path can be the names of folders.
pub proof fn mappenavn_er_navn(sti: Seq<char>)
    ensures
        er_navn(mappenavn(sti)),
{
    let skille = seq!['/'];
    let v = splittet(sti, skille);
    splittet_uten_skiller(sti, skille);
    assert(skille[0] == '/');
    assert(skille.contains('/'));
    assert forall|k: int| 0 <= k < v.len() implies !(#[trigger] v[k]).contains('/') by {}
    uten_skraastrek(v);
    ingen_tomme(v);
}

proof fn uten_skraastrek(v: Seq<Seq<char>>)
    requires
        forall|k: int| 0 <= k < v.len() ==> !(#[trigger] v[k]).contains('/'),
    ensures
        forall|k: int|
            0 <= k < ikke_tomme(v).len() ==> !(#[trigger] ikke_tomme(v)[k]).contains('/'),
    decreases v.len(),
{
    if v.len() > 0 {
        let foran = ikke_tomme(v.drop_last());
        assert forall|k: int| 0 <= k < v.drop_last().len() implies !(#[trigger] v.drop_last()[k])
            .contains('/') by {
            assert(v.drop_last()[k] == v[k]);
        }
        uten_skraastrek(v.drop_last());
        assert forall|k: int| 0 <= k < ikke_tomme(v).len() implies !(#[trigger] ikke_tomme(
            v,
        )[k]).contains('/') by {
            if k < foran.len() {
                assert(ikke_tomme(v)[k] == foran[k]);
            } else {
                assert(ikke_tomme(v)[k] == v[v.len() - 1]);
            }
        }
    }
}

/// What stands before and after the last slash is given by the whole.
proof fn siste_skraastrek(a: Seq<char>, b: Seq<char>, c: Seq<char>, d: Seq<char>)
    requires
        a + "/"@ + b == c + "/"@ + d,
        !b.contains('/'),
        !d.contains('/'),
    ensures
        a == c,
        b == d,
{
    reveal_strlit("/");
    assert("/"@ =~= seq!['/']);
    let x = a + "/"@ + b;
    let y = c + "/"@ + d;
    assert(x.len() == a.len() + 1 + b.len());
    assert(y.len() == c.len() + 1 + d.len());
    assert(x[a.len() as int] == '/');
    assert(y[c.len() as int] == '/');
    if a.len() < c.len() {
        let i = c.len() - a.len() - 1;
        assert(x[c.len() as int] == b[i]);
        assert(b.contains('/'));
    }
    if c.len() < a.len() {
        let i = a.len() - c.len() - 1;
        assert(y[a.len() as int] == d[i]);
        assert(d.contains('/'));
    }
    assert(a =~= x.take(a.len() as int));
    assert(c =~= y.take(c.len() as int));
    assert(b =~= x.skip(a.len() as int + 1));
    assert(d =~= y.skip(c.len() as int + 1));
}

/// Two different folders never have the same path, so that none is taken for another.
pub proof fn stier_er_entydige(a: Seq<Seq<char>>, b: Seq<Seq<char>>)
    requires
        er_navn(a),
        er_navn(b),
        sti_av(a) == sti_av(b),
    ensures
        a == b,
    decreases a.len(),
{
    reveal_strlit("/");
    assert("/"@ =~= seq!['/']);
    if a.len() == 0 || b.len() == 0 {
        if a.len() > 0 {
            sti_ikke_tom(a);
        }
        if b.len() > 0 {
            sti_ikke_tom(b);
        }
        assert(a =~= b);
    } else if a.len() == 1 || b.len() == 1 {
        if a.len() > 1 {
            let s = sti_av(a);
            assert(s[sti_av(a.drop_last()).len() as int] == '/');
            assert(b[0].contains('/'));
        }
        if b.len() > 1 {
            let s = sti_av(b);
            assert(s[sti_av(b.drop_last()).len() as int] == '/');
            assert(a[0].contains('/'));
        }
        assert(a =~= b);
    } else {
        assert(a[a.len() - 1].len() > 0 && b[b.len() - 1].len() > 0);
        siste_skraastrek(sti_av(a.drop_last()), a.last(), sti_av(b.drop_last()), b.last());
        assert forall|k: int| 0 <= k < a.drop_last().len() implies (#[trigger] a.drop_last()[k])
            .len() > 0 && !a.drop_last()[k].contains('/') by {
            assert(a.drop_last()[k] == a[k]);
        }
        assert forall|k: int| 0 <= k < b.drop_last().len() implies (#[trigger] b.drop_last()[k])
            .len() > 0 && !b.drop_last()[k].contains('/') by {
            assert(b.drop_last()[k] == b[k]);
        }
        stier_er_entydige(a.drop_last(), b.drop_last());
        assert(a =~= a.drop_last().push(a.last()));
        assert(b =~= b.drop_last().push(b.last()));
    }
}

/// The folders of a path are those on either side of each slash, in order, and what is empty
/// is none.
pub proof fn mapper_paa_hver_side(a: Seq<char>, b: Seq<char>)
    ensures
        mappenavn(a.push('/') + b) == mappenavn(a) + mappenavn(b),
{
    let sk = seq!['/'];
    assert(sk[0] == '/');
    splittes_ved_skillet(a, '/', b, sk);
    ikke_tomme_i_rekkefolge(splittet(a, sk), splittet(b, sk));
}

proof fn ikke_tomme_i_rekkefolge(a: Seq<Seq<char>>, b: Seq<Seq<char>>)
    ensures
        ikke_tomme(a + b) == ikke_tomme(a) + ikke_tomme(b),
    decreases b.len(),
{
    if b.len() == 0 {
        assert(a + b =~= a);
        assert(ikke_tomme(a) + ikke_tomme(b) =~= ikke_tomme(a));
    } else {
        ikke_tomme_i_rekkefolge(a, b.drop_last());
        assert((a + b).drop_last() =~= a + b.drop_last());
        assert(ikke_tomme(a + b) =~= ikke_tomme(a) + ikke_tomme(b));
    }
}

/// A path without a slash is one folder, or none where it is empty.
pub proof fn uten_skraastrek_en_mappe(d: Seq<char>)
    requires
        !d.contains('/'),
    ensures
        d.len() > 0 ==> mappenavn(d) == seq![d],
        d.len() == 0 ==> mappenavn(d).len() == 0,
{
    let sk = seq!['/'];
    assert forall|i: int| 0 <= i < d.len() implies !sk.contains(#[trigger] d[i]) by {
        if sk.contains(d[i]) {
            assert(d.contains('/'));
        }
    }
    uten_skille_ett_stykke(d, sk);
    let en = seq![d];
    assert(en.drop_last() =~= Seq::<Seq<char>>::empty());
    assert(ikke_tomme(en.drop_last()) =~= Seq::<Seq<char>>::empty());
    assert(en.last() == d);
    assert(d.len() > 0 ==> ikke_tomme(en) =~= seq![d]);
}

/// A path that is made of the names of folders is read as those names.
pub proof fn stien_leses_som_skrevet(deler: Seq<Seq<char>>)
    requires
        er_navn(deler),
    ensures
        mappenavn(sti_av(deler)) == deler,
    decreases deler.len(),
{
    reveal_strlit("/");
    if deler.len() == 0 {
        uten_skraastrek_en_mappe(Seq::empty());
        assert(mappenavn(sti_av(deler)) =~= deler);
    } else {
        let d = deler.last();
        assert(deler[deler.len() - 1].len() > 0 && !deler[deler.len() - 1].contains('/'));
        uten_skraastrek_en_mappe(d);
        if deler.len() == 1 {
            assert(deler =~= seq![d]);
        } else {
            let f = deler.drop_last();
            assert forall|k: int| 0 <= k < f.len() implies (#[trigger] f[k]).len() > 0
                && !f[k].contains('/') by {
                assert(f[k] == deler[k]);
            }
            stien_leses_som_skrevet(f);
            assert(sti_av(deler) =~= sti_av(f).push('/') + d);
            mapper_paa_hver_side(sti_av(f), d);
            assert(f + seq![d] =~= deler);
        }
    }
}

/// The folder that is made next is the first that is not known: all before it are, and none
/// is made where all are known.
pub proof fn forste_ukjente_lages(
    deler: Seq<Seq<char>>,
    kjent: Map<Seq<char>, Seq<char>>,
    i: int,
)
    requires
        0 <= i <= deler.len(),
    ensures
        ({
            let n = forste_ukjente(deler, kjent, i);
            &&& i <= n <= deler.len()
            &&& forall|k: int| i <= k < n ==> kjent.contains_key(sti_av(#[trigger] deler.take(k + 1)))
            &&& n < deler.len() ==> !kjent.contains_key(sti_av(deler.take(n + 1)))
        }),
    decreases deler.len() - i,
{
    if i < deler.len() && kjent.contains_key(sti_av(deler.take(i + 1))) {
        forste_ukjente_lages(deler, kjent, i + 1);
    }
}

} // verus!
