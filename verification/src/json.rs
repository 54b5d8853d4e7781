//! JSON: what an answer holds, and the bodies of requests.
use vstd::prelude::*;
use vstd::string::*;

verus! {

/// What a JSON value holds. A number is known only where it is a whole number from zero
/// to `u64::MAX`.
pub enum Json {
    Null,
    Bool(bool),
    Tall(Option<u64>),
    Tekst(Seq<char>),
    Liste(Seq<Json>),
    Objekt(Map<Seq<char>, Json>),
}

/// A value of `serde_json`.
#[verifier::external_type_specification]
#[verifier::external_body]
pub struct ExValue(serde_json::Value);

/// What is wrong with a JSON text, in the words of `serde_json`.
#[verifier::external_type_specification]
#[verifier::external_body]
pub struct ExError(serde_json::Error);

/// What a value of `serde_json` holds.
pub uninterp spec fn innhold(v: serde_json::Value) -> Json;

/// What a JSON text says, if it is one.
pub uninterp spec fn json_av(tekst: Seq<u8>) -> Option<Json>;

/// `serde_json::from_slice` for any value: reads a JSON text. It gives a value exactly
/// where the bytes are such a text, and the bytes alone decide which.
#[verifier::external_body]
pub(crate) fn les_json(tekst: &[u8]) -> (r: Result<serde_json::Value, serde_json::Error>)
    ensures
        match r {
            Ok(v) => json_av(tekst@) == Some(innhold(v)),
            Err(_) => json_av(tekst@) is None,
        },
{
    serde_json::from_slice::<serde_json::Value>(tekst)
}

/// `serde_json::Value::get` with a name: the field of an object, or nothing where the
/// value is no object or lacks the field.
#[verifier::external_body]
pub(crate) fn felt<'a>(v: &'a serde_json::Value, navn: &str) -> (r: Option<&'a serde_json::Value>)
    ensures
        match r {
            Some(f) => felt_av(innhold(*v), navn@) == Some(innhold(*f)),
            None => felt_av(innhold(*v), navn@) is None,
        },
{
    v.get(navn)
}

/// `serde_json::Value::as_str`: the text, where the value is one.
pub assume_specification[ serde_json::Value::as_str ](v: &serde_json::Value) -> (r: Option<&str>)
    ensures
        match r {
            Some(s) => innhold(*v) == Json::Tekst(s@),
            None => !(innhold(*v) is Tekst),
        },
;

/// `serde_json::Value::as_bool`: the truth value, where the value is one.
pub assume_specification[ serde_json::Value::as_bool ](v: &serde_json::Value) -> (r: Option<bool>)
    ensures
        match r {
            Some(b) => innhold(*v) == Json::Bool(b),
            None => !(innhold(*v) is Bool),
        },
;

/// `serde_json::Value::as_u64`: the number, where the value is a whole number in range.
pub assume_specification[ serde_json::Value::as_u64 ](v: &serde_json::Value) -> (r: Option<u64>)
    ensures
        match r {
            Some(n) => innhold(*v) == Json::Tall(Some(n)),
            None => !(innhold(*v) is Tall && innhold(*v)->Tall_0 is Some),
        },
;

/// `serde_json::Value::as_array`: the elements in order, where the value is a list.
pub assume_specification[ serde_json::Value::as_array ](v: &serde_json::Value) -> (r: Option<
    &Vec<serde_json::Value>,
>)
    ensures
        match r {
            Some(l) => innhold(*v) is Liste && innhold(*v)->Liste_0 == l@.map_values(
                |x: serde_json::Value| innhold(x),
            ),
            None => !(innhold(*v) is Liste),
        },
;

/// The field of an object.
pub open spec fn felt_av(j: Json, navn: Seq<char>) -> Option<Json> {
    match j {
        Json::Objekt(m) => if m.contains_key(navn) {
            Some(m[navn])
        } else {
            None
        },
        _ => None,
    }
}

/// The text in a field; nothing where the field is absent or holds something else.
pub open spec fn tekst_i(j: Json, navn: Seq<char>) -> Option<Seq<char>> {
    match felt_av(j, navn) {
        Some(Json::Tekst(s)) => Some(s),
        _ => None,
    }
}

/// Whether a field holds `true`.
pub open spec fn sant_i(j: Json, navn: Seq<char>) -> bool {
    felt_av(j, navn) == Some(Json::Bool(true))
}

/// The text in a field.
pub fn tekstfelt(v: &serde_json::Value, navn: &str) -> (r: Option<String>)
    ensures
        crate::tekst::valgfri(r) == tekst_i(innhold(*v), navn@),
{
    match felt(v, navn) {
        Some(f) => match f.as_str() {
            Some(s) => Some(s.to_owned()),
            None => None,
        },
        None => None,
    }
}

/// Whether a field holds `true`.
pub fn sant(v: &serde_json::Value, navn: &str) -> (r: bool)
    ensures
        r == sant_i(innhold(*v), navn@),
{
    match felt(v, navn) {
        Some(f) => match f.as_bool() {
            Some(b) => b,
            None => false,
        },
        None => false,
    }
}

/// The whole number in a field.
pub open spec fn tall_i(j: Json, navn: Seq<char>) -> Option<u64> {
    match felt_av(j, navn) {
        Some(Json::Tall(n)) => n,
        _ => None,
    }
}

/// The whole number in a field.
pub fn tallfelt(v: &serde_json::Value, navn: &str) -> (r: Option<u64>)
    ensures
        r == tall_i(innhold(*v), navn@),
{
    match felt(v, navn) {
        Some(f) => f.as_u64(),
        None => None,
    }
}

/// A part number and an address, where an element of a list has both. Of the number, its
/// lower 32 bits count.
pub open spec fn del_av(j: Json) -> Option<(u32, Seq<char>)> {
    match (tall_i(j, "nr"@), tekst_i(j, "url"@)) {
        (Some(nr), Some(url)) => Some((nr as u32, url)),
        _ => None,
    }
}

/// The part numbers and addresses in a list; other elements are passed over.
pub open spec fn deler_av(l: Seq<Json>) -> Seq<(u32, Seq<char>)>
    decreases l.len(),
{
    if l.len() == 0 {
        Seq::empty()
    } else {
        match del_av(l.last()) {
            Some(d) => deler_av(l.drop_last()).push(d),
            None => deler_av(l.drop_last()),
        }
    }
}

/// The part numbers and addresses that an answer gives.
pub open spec fn deler_i(j: Json) -> Seq<(u32, Seq<char>)> {
    match felt_av(j, "deler"@) {
        Some(Json::Liste(l)) => deler_av(l),
        _ => Seq::empty(),
    }
}

/// What a list of numbers and texts says.
pub open spec fn par(v: Seq<(u32, String)>) -> Seq<(u32, Seq<char>)> {
    v.map_values(|d: (u32, String)| (d.0, d.1@))
}

/// The part numbers and addresses that an answer gives.
pub fn les_deler(v: &serde_json::Value) -> (r: Vec<(u32, String)>)
    ensures
        par(r@) == deler_i(innhold(*v)),
{
    let mut ut: Vec<(u32, String)> = Vec::new();
    assert(par(ut@) =~= Seq::empty());
    match felt(v, "deler") {
        None => {},
        Some(f) => match f.as_array() {
            None => {},
            Some(l) => {
                let ghost alle = l@.map_values(|x: serde_json::Value| innhold(x));
                assert(alle.take(0) =~= Seq::empty());
                let mut i: usize = 0;
                while i < l.len()
                    invariant
                        i <= l@.len(),
                        alle == l@.map_values(|x: serde_json::Value| innhold(x)),
                        par(ut@) == deler_av(alle.take(i as int)),
                    decreases l@.len() - i,
                {
                    assert(alle.take(i + 1).drop_last() =~= alle.take(i as int));
                    assert(alle.take(i + 1).last() == innhold(l@[i as int]));
                    let ghost foer = ut@;
                    match (tallfelt(&l[i], "nr"), tekstfelt(&l[i], "url")) {
                        (Some(nr), Some(url)) => {
                            #[verifier::truncate]
                            let kort: u32 = nr as u32;
                            ut.push((kort, url));
                            assert(par(ut@) =~= par(foer).push((kort, url@)));
                        },
                        _ => {},
                    }
                    i += 1;
                }
                assert(alle.take(i as int) =~= alle);
            },
        },
    }
    ut
}

/// The texts in a list, where it holds nothing else.
pub open spec fn tekstliste(j: Json) -> Option<Seq<Seq<char>>> {
    match j {
        Json::Liste(l) => if forall|i: int| 0 <= i < l.len() ==> (#[trigger] l[i]) is Tekst {
            Some(l.map_values(|x: Json| x->Tekst_0))
        } else {
            None
        },
        _ => None,
    }
}

/// A list of texts as a JSON value.
pub open spec fn liste_json(v: Seq<Seq<char>>) -> Json {
    Json::Liste(v.map_values(|s: Seq<char>| Json::Tekst(s)))
}

/// A list of texts that is written as JSON is read as it was.
pub proof fn liste_leses_som_skrevet(v: Seq<Seq<char>>)
    ensures
        tekstliste(liste_json(v)) == Some(v),
{
    let l = v.map_values(|s: Seq<char>| Json::Tekst(s));
    assert forall|i: int| 0 <= i < l.len() implies (#[trigger] l[i]) is Tekst by {}
    assert(l.map_values(|x: Json| x->Tekst_0) =~= v);
}

/// Reads the texts in a list, where it holds nothing else.
pub fn les_tekstliste(v: &serde_json::Value) -> (r: Option<Vec<String>>)
    ensures
        match r {
            Some(l) => tekstliste(innhold(*v)) == Some(crate::tekst::tekster(l@)),
            None => tekstliste(innhold(*v)) is None,
        },
{
    match v.as_array() {
        None => None,
        Some(l) => {
            let ghost alle = innhold(*v)->Liste_0;
            let mut ut: Vec<String> = Vec::new();
            let mut i: usize = 0;
            while i < l.len()
                invariant
                    i <= l@.len(),
                    innhold(*v) is Liste,
                    alle == innhold(*v)->Liste_0,
                    alle == l@.map_values(|x: serde_json::Value| innhold(x)),
                    ut@.len() == i,
                    forall|k: int| 0 <= k < i ==> #[trigger] alle[k] == Json::Tekst(ut@[k]@),
                decreases l@.len() - i,
            {
                assert(alle[i as int] == innhold(l@[i as int]));
                match l[i].as_str() {
                    Some(s) => ut.push(s.to_owned()),
                    None => {
                        return None;
                    },
                }
                i += 1;
            }
            assert(alle.map_values(|x: Json| x->Tekst_0) =~= crate::tekst::tekster(ut@));
            Some(ut)
        },
    }
}

/// `serde_json::to_vec` for a list of texts: writes it as a JSON text, from which the list
/// can be read again. Texts can always be written.
#[verifier::external_body]
pub(crate) fn skriv_tekstliste(v: &Vec<String>) -> (r: Result<Vec<u8>, serde_json::Error>)
    ensures
        r is Ok,
        r is Ok ==> json_av(r->Ok_0@) == Some(liste_json(crate::tekst::tekster(v@))),
{
    serde_json::to_vec(v)
}

/// What the portal's answers say, as far as it matters.
#[derive(Debug)]
pub struct Svar {
    pub error: Option<String>,
    pub id: Option<String>,
    pub upload_id: Option<String>,
    pub upload_url: Option<String>,
    pub original_key: Option<String>,
    pub proxy_put_url: Option<String>,
    pub kvote_sperre: bool,
    pub ok: bool,
    pub allerede: bool,
    pub deler: Vec<(u32, String)>,
}

impl Svar {
    /// Whether this is what an answer says.
    pub open spec fn sier(&self, j: Json) -> bool {
        &&& crate::tekst::valgfri(self.error) == tekst_i(j, "error"@)
        &&& crate::tekst::valgfri(self.id) == tekst_i(j, "id"@)
        &&& crate::tekst::valgfri(self.upload_id) == tekst_i(j, "uploadId"@)
        &&& crate::tekst::valgfri(self.upload_url) == tekst_i(j, "uploadUrl"@)
        &&& crate::tekst::valgfri(self.original_key) == tekst_i(j, "originalKey"@)
        &&& crate::tekst::valgfri(self.proxy_put_url) == tekst_i(j, "proxyPutUrl"@)
        &&& self.kvote_sperre == sant_i(j, "kvoteSperre"@)
        &&& self.ok == sant_i(j, "ok"@)
        &&& self.allerede == sant_i(j, "allerede"@)
        &&& par(self.deler@) == deler_i(j)
    }

    /// What a value says.
    pub fn av_verdi(v: &serde_json::Value) -> (r: Svar)
        ensures
            r.sier(innhold(*v)),
    {
        Svar {
            error: tekstfelt(v, "error"),
            id: tekstfelt(v, "id"),
            upload_id: tekstfelt(v, "uploadId"),
            upload_url: tekstfelt(v, "uploadUrl"),
            original_key: tekstfelt(v, "originalKey"),
            proxy_put_url: tekstfelt(v, "proxyPutUrl"),
            kvote_sperre: sant(v, "kvoteSperre"),
            ok: sant(v, "ok"),
            allerede: sant(v, "allerede"),
            deler: les_deler(v),
        }
    }

    /// What the body of an answer says, where it is a JSON text.
    pub fn les(kropp: &[u8]) -> (r: Option<Svar>)
        ensures
            match r {
                Some(s) => json_av(kropp@) is Some && s.sier(json_av(kropp@)->0),
                None => json_av(kropp@) is None,
            },
    {
        match les_json(kropp) {
            Ok(v) => Some(Svar::av_verdi(&v)),
            Err(_) => None,
        }
    }

    /// An answer that says nothing.
    pub fn tomt() -> (r: Svar)
        ensures
            r.sier(Json::Objekt(Map::empty())),
            r.error is None,
            !r.ok,
            !r.allerede,
    {
        let r = Svar {
            error: None,
            id: None,
            upload_id: None,
            upload_url: None,
            original_key: None,
            proxy_put_url: None,
            kvote_sperre: false,
            ok: false,
            allerede: false,
            deler: Vec::new(),
        };
        assert(par(r.deler@) =~= Seq::empty());
        r
    }

    /// What the body of an answer says; nothing where it is no JSON text.
    pub fn les_eller_tomt(kropp: &[u8]) -> (r: Svar)
        ensures
            r.sier(
                match json_av(kropp@) {
                    Some(j) => j,
                    None => Json::Objekt(Map::empty()),
                },
            ),
    {
        match Svar::les(kropp) {
            Some(s) => s,
            None => Svar::tomt(),
        }
    }
}

/// The value of a field in the body of a request.
#[derive(Debug)]
pub enum Felt {
    Null,
    Tall(u64),
    Tekst(String),
    Numre(Vec<u32>),
    Tekster(Vec<String>),
    /// Part numbers, each with the tag that the storage gave the part.
    Deler(Vec<(u32, String)>),
}

/// A finished part as it is named to the portal.
pub open spec fn del_json(nr: u32, etag: Seq<char>) -> Json {
    Json::Objekt(map!["nr"@ => Json::Tall(Some(nr as u64)), "etag"@ => Json::Tekst(etag)])
}

/// What a field's value stands for.
pub open spec fn felt_json(f: Felt) -> Json {
    match f {
        Felt::Null => Json::Null,
        Felt::Tall(n) => Json::Tall(Some(n)),
        Felt::Tekst(s) => Json::Tekst(s@),
        Felt::Numre(v) => Json::Liste(v@.map_values(|n: u32| Json::Tall(Some(n as u64)))),
        Felt::Tekster(v) => Json::Liste(v@.map_values(|s: String| Json::Tekst(s@))),
        Felt::Deler(v) => Json::Liste(v@.map_values(|d: (u32, String)| del_json(d.0, d.1@))),
    }
}

/// The fields of an object, in the order in which they were set; a later one replaces an
/// earlier one of the same name.
pub open spec fn felter_av(s: Seq<(String, Felt)>) -> Map<Seq<char>, Json>
    decreases s.len(),
{
    if s.len() == 0 {
        Map::empty()
    } else {
        felter_av(s.drop_last()).insert(s.last().0@, felt_json(s.last().1))
    }
}

/// The body of a request: an object with these fields.
#[derive(Debug)]
pub struct Kropp {
    pub felter: Vec<(String, Felt)>,
}

impl Kropp {
    /// The fields of the object.
    pub open spec fn modell(&self) -> Map<Seq<char>, Json> {
        felter_av(self.felter@)
    }

    /// An object without fields.
    pub fn ny() -> (r: Kropp)
        ensures
            r.modell() == Map::<Seq<char>, Json>::empty(),
    {
        Kropp { felter: Vec::new() }
    }

    /// Sets a field.
    pub fn sett(&mut self, navn: &str, f: Felt)
        ensures
            final(self).modell() == old(self).modell().insert(navn@, felt_json(f)),
    {
        let ghost foer = self.felter@;
        self.felter.push((navn.to_owned(), f));
        assert(self.felter@.drop_last() =~= foer);
    }

    /// Sets a field to a text.
    pub fn sett_tekst(&mut self, navn: &str, s: &str)
        ensures
            final(self).modell() == old(self).modell().insert(navn@, Json::Tekst(s@)),
    {
        self.sett(navn, Felt::Tekst(s.to_owned()));
    }

    /// Sets a field to a number.
    pub fn sett_tall(&mut self, navn: &str, n: u64)
        ensures
            final(self).modell() == old(self).modell().insert(navn@, Json::Tall(Some(n))),
    {
        self.sett(navn, Felt::Tall(n));
    }
}

/// How a folder is named to the portal: by its number, or as nothing for the topmost.
pub open spec fn mappe_av(id: Seq<char>) -> Json {
    if id.len() == 0 {
        Json::Null
    } else {
        Json::Tekst(id)
    }
}

/// Names a folder to the portal.
pub fn mappe_json(id: &str) -> (r: Felt)
    ensures
        felt_json(r) == mappe_av(id@),
{
    if id.is_empty() {
        Felt::Null
    } else {
        Felt::Tekst(id.to_owned())
    }
}

/// A field is read from an object alone, and as what it holds: a text is a text, a whole
/// number a number, and only `true` is true.
pub proof fn felter_leses(m: Map<Seq<char>, Json>, navn: Seq<char>, t: Seq<char>, n: u64)
    ensures
        tekst_i(Json::Objekt(m), navn) == Some(t) <==> m.contains_key(navn) && m[navn]
            == Json::Tekst(t),
        tall_i(Json::Objekt(m), navn) == Some(n) <==> m.contains_key(navn) && m[navn]
            == Json::Tall(Some(n)),
        sant_i(Json::Objekt(m), navn) <==> m.contains_key(navn) && m[navn] == Json::Bool(true),
        m.contains_key(navn) && !(m[navn] is Tekst) ==> tekst_i(Json::Objekt(m), navn) is None,
        m.contains_key(navn) && !(m[navn] is Tall) ==> tall_i(Json::Objekt(m), navn) is None,
        !m.contains_key(navn) ==> tekst_i(Json::Objekt(m), navn) is None && tall_i(
            Json::Objekt(m),
            navn,
        ) is None,
{
}

/// What is no object has no fields.
pub proof fn bare_objekter_har_felter(j: Json, navn: Seq<char>)
    requires
        !(j is Objekt),
    ensures
        tekst_i(j, navn) is None,
        tall_i(j, navn) is None,
        !sant_i(j, navn),
{
}

/// The addresses in an answer are read as they stand there: each element that has a number
/// under `nr` and an address under `url` gives that number with that address, in order, and
/// one without a number or without an address gives nothing.
pub proof fn deler_leses_som_de_staar(
    foran: Seq<Json>,
    m: Map<Seq<char>, Json>,
    bak: Seq<Json>,
    nr: u32,
    url: Seq<char>,
)
    ensures
        deler_av(foran + bak) == deler_av(foran) + deler_av(bak),
        m.contains_key("nr"@) && m["nr"@] == Json::Tall(Some(nr as u64)) && m.contains_key("url"@)
            && m["url"@] == Json::Tekst(url) ==> deler_av(foran.push(Json::Objekt(m)) + bak)
            == deler_av(foran).push((nr, url)) + deler_av(bak),
        !(m.contains_key("nr"@) && m["nr"@] is Tall) || !(m.contains_key("url"@) && m["url"@] is Tekst)
            ==> deler_av(foran.push(Json::Objekt(m)) + bak) == deler_av(foran) + deler_av(bak),
{
    deler_i_rekkefolge(foran, bak);
    let en = foran.push(Json::Objekt(m));
    deler_i_rekkefolge(en, bak);
    assert(en.drop_last() =~= foran);
}

proof fn deler_i_rekkefolge(a: Seq<Json>, b: Seq<Json>)
    ensures
        deler_av(a + b) == deler_av(a) + deler_av(b),
    decreases b.len(),
{
    if b.len() == 0 {
        assert(a + b =~= a);
        assert(deler_av(a) + deler_av(b) =~= deler_av(a));
    } else {
        deler_i_rekkefolge(a, b.drop_last());
        assert((a + b).drop_last() =~= a + b.drop_last());
        assert(deler_av(a + b) =~= deler_av(a) + deler_av(b));
    }
}

/// An object that is built holds each field as it was set last, and no others.
pub proof fn siste_felt_gjelder(s: Seq<(String, Felt)>, navn: Seq<char>)
    ensures
        felter_av(s).contains_key(navn) <==> exists|i: int|
            0 <= i < s.len() && (#[trigger] s[i]).0@ == navn,
        felter_av(s).contains_key(navn) ==> exists|i: int|
            0 <= i < s.len() && (#[trigger] s[i]).0@ == navn && felter_av(s)[navn] == felt_json(
                s[i].1,
            ) && forall|j: int| i < j < s.len() ==> (#[trigger] s[j]).0@ != navn,
    decreases s.len(),
{
    if s.len() > 0 {
        let d = s.drop_last();
        siste_felt_gjelder(d, navn);
        if s.last().0@ == navn {
            assert(s[s.len() - 1].0@ == navn);
        } else {
            if felter_av(d).contains_key(navn) {
                let i = choose|i: int|
                    0 <= i < d.len() && (#[trigger] d[i]).0@ == navn && felter_av(d)[navn]
                        == felt_json(d[i].1) && forall|j: int|
                        i < j < d.len() ==> (#[trigger] d[j]).0@ != navn;
                assert(s[i].0@ == navn);
                assert forall|j: int| i < j < s.len() implies (#[trigger] s[j]).0@ != navn by {
                    if j < d.len() {
                        assert(d[j].0@ != navn);
                    }
                }
            }
            if exists|i: int| 0 <= i < s.len() && (#[trigger] s[i]).0@ == navn {
                let i = choose|i: int| 0 <= i < s.len() && (#[trigger] s[i]).0@ == navn;
                assert(d[i].0@ == navn);
            }
        }
    }
}

/// The topmost folder is named to the portal as nothing, and every other by its number.
pub proof fn mappa_nevnes_ved_nummer(id: Seq<char>)
    ensures
        mappe_av(id) == Json::Null <==> id.len() == 0,
        id.len() > 0 ==> mappe_av(id) == Json::Tekst(id),
{
}

/// A list of texts is read only from a list that holds nothing else, and then each text in
/// its place.
pub proof fn tekstliste_leses(l: Seq<Json>, i: int)
    requires
        0 <= i < l.len(),
    ensures
        !(l[i] is Tekst) ==> tekstliste(Json::Liste(l)) is None,
        tekstliste(Json::Liste(l)) matches Some(v) ==> v.len() == l.len() && l[i] == Json::Tekst(
            v[i],
        ),
{
}

/// What an answer says under each name is what stands there under it.
pub proof fn svaret_sier_det_som_staar(s: Svar, m: Map<Seq<char>, Json>, t: Seq<char>)
    requires
        s.sier(Json::Objekt(m)),
    ensures
        s.ok <==> m.contains_key("ok"@) && m["ok"@] == Json::Bool(true),
        s.allerede <==> m.contains_key("allerede"@) && m["allerede"@] == Json::Bool(true),
        s.kvote_sperre <==> m.contains_key("kvoteSperre"@) && m["kvoteSperre"@] == Json::Bool(true),
        (s.error matches Some(x) && x@ == t) <==> m.contains_key("error"@) && m["error"@]
            == Json::Tekst(t),
        (s.id matches Some(x) && x@ == t) <==> m.contains_key("id"@) && m["id"@] == Json::Tekst(t),
        (s.upload_id matches Some(x) && x@ == t) <==> m.contains_key("uploadId"@) && m["uploadId"@]
            == Json::Tekst(t),
        (s.upload_url matches Some(x) && x@ == t) <==> m.contains_key("uploadUrl"@)
            && m["uploadUrl"@] == Json::Tekst(t),
        (s.original_key matches Some(x) && x@ == t) <==> m.contains_key("originalKey"@)
            && m["originalKey"@] == Json::Tekst(t),
        (s.proxy_put_url matches Some(x) && x@ == t) <==> m.contains_key("proxyPutUrl"@)
            && m["proxyPutUrl"@] == Json::Tekst(t),
        m.contains_key("deler"@) && m["deler"@] is Liste ==> par(s.deler@) == deler_av(
            m["deler"@]->Liste_0,
        ),
{
}

} // verus!
