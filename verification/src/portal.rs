//! Talking to the portal: addresses, the key that a request carries, and what the
//! portal's answers mean.
use crate::json::{
    innhold, json_av, les_json, mappe_av, mappe_json, tekst_i, Felt, Json, Kropp, Svar,
};
use crate::tekst::{
    desimaler, har_prefiks, starter_med, trim_slutt, uten_slutt, valgfri,
};
use vstd::prelude::*;
use vstd::string::*;
use vstd::utf8::encode_utf8;

verus! {

/// Whether a byte stands for itself in a query.
pub open spec fn ubeskyttet(b: u8) -> bool {
    ||| 65 <= b <= 90
    ||| 97 <= b <= 122
    ||| 48 <= b <= 57
    ||| b == 45
    ||| b == 95
    ||| b == 46
    ||| b == 126
}

/// The hexadecimal digit of `d`, in upper case.
pub open spec fn storhex(d: int) -> char {
    if d < 10 {
        (48 + d) as u8 as char
    } else {
        (55 + d) as u8 as char
    }
}

/// A byte in a query: itself, or a percent sign and two hexadecimal digits.
pub open spec fn kodet_byte(b: u8) -> Seq<char> {
    if ubeskyttet(b) {
        seq![b as char]
    } else {
        seq!['%', storhex(b as int / 16), storhex(b as int % 16)]
    }
}

/// Bytes in a query, each written by itself.
pub open spec fn kodet(b: Seq<u8>) -> Seq<char>
    decreases b.len(),
{
    if b.len() == 0 {
        Seq::empty()
    } else {
        kodet(b.drop_last()) + kodet_byte(b.last())
    }
}

fn storhex_av(d: u8) -> (r: char)
    requires
        d < 16,
    ensures
        r == storhex(d as int),
{
    if d < 10 {
        (48 + d) as char
    } else {
        (55 + d) as char
    }
}

/// Writes a text so that it can stand in a query.
pub fn urlenc(s: &str) -> (r: String)
    ensures
        r@ == kodet(encode_utf8(s@)),
{
    let b = s.as_bytes();
    let ghost alle = encode_utf8(s@);
    let mut ut = String::new();
    let mut i: usize = 0;
    while i < b.len()
        invariant
            b@ == alle,
            i <= b@.len(),
            ut@ == kodet(alle.take(i as int)),
        decreases b@.len() - i,
    {
        let x: u8 = b[i];
        assert(alle.take(i + 1).drop_last() =~= alle.take(i as int));
        let ghost foer = ut@;
        if (65 <= x && x <= 90) || (97 <= x && x <= 122) || (48 <= x && x <= 57) || x == 45 || x
            == 95 || x == 46 || x == 126 {
            ut.push(x as char);
        } else {
            ut.push('%');
            ut.push(storhex_av(x / 16));
            ut.push(storhex_av(x % 16));
        }
        assert(ut@ =~= foer + kodet_byte(x));
        i += 1;
    }
    assert(alle.take(i as int) =~= alle);
    ut
}

/// The bytes that a text in a query stands for.
pub open spec fn dekodet(s: Seq<char>) -> Seq<u8>
    decreases s.len(),
{
    if s.len() == 0 {
        Seq::empty()
    } else if s[0] == '%' && s.len() >= 3 {
        seq![(16 * hexverdi(s[1]) + hexverdi(s[2])) as u8] + dekodet(s.skip(3))
    } else {
        seq![s[0] as u8] + dekodet(s.skip(1))
    }
}

/// The number that an upper-case hexadecimal digit stands for.
pub open spec fn hexverdi(c: char) -> int {
    if c as int >= 65 {
        c as int - 55
    } else {
        c as int - 48
    }
}

proof fn kodet_forfra(b: Seq<u8>)
    requires
        b.len() > 0,
    ensures
        kodet(b) == kodet_byte(b[0]) + kodet(b.skip(1)),
    decreases b.len(),
{
    if b.len() == 1 {
        assert(b.drop_last() =~= Seq::empty());
        assert(b.skip(1) =~= Seq::empty());
        assert(kodet(b) =~= kodet_byte(b[0]) + kodet(b.skip(1)));
    } else {
        kodet_forfra(b.drop_last());
        assert(b.drop_last().skip(1) =~= b.skip(1).drop_last());
        assert(kodet(b) =~= kodet_byte(b[0]) + kodet(b.skip(1)));
    }
}

/// A text comes through a query unharmed: reading the query gives its bytes back.
pub proof fn urlenc_kan_leses(b: Seq<u8>)
    ensures
        dekodet(kodet(b)) == b,
    decreases b.len(),
{
    if b.len() > 0 {
        kodet_forfra(b);
        urlenc_kan_leses(b.skip(1));
        let k = kodet(b);
        let x = b[0];
        if ubeskyttet(x) {
            assert(k.skip(1) =~= kodet(b.skip(1)));
            assert(k[0] == x as char);
            assert(k[0] as u8 == x);
        } else {
            assert(k.skip(3) =~= kodet(b.skip(1)));
            assert(k[0] == '%' && k[1] == storhex(x as int / 16) && k[2] == storhex(
                x as int % 16,
            ));
            assert(hexverdi(k[1]) == x as int / 16);
            assert(hexverdi(k[2]) == x as int % 16);
        }
        assert(dekodet(k) =~= seq![x] + b.skip(1));
        assert(seq![x] + b.skip(1) =~= b);
    }
}

/// A text in a query holds nothing that has a meaning of its own there.
pub proof fn urlenc_er_trygg(b: Seq<u8>)
    ensures
        forall|i: int|
            0 <= i < kodet(b).len() ==> {
                let c = #[trigger] kodet(b)[i];
                c == '%' || (c as int <= 126 && ubeskyttet(c as u8))
            },
    decreases b.len(),
{
    if b.len() > 0 {
        urlenc_er_trygg(b.drop_last());
        let foran = kodet(b.drop_last());
        assert forall|i: int| 0 <= i < kodet(b).len() implies {
            let c = #[trigger] kodet(b)[i];
            c == '%' || (c as int <= 126 && ubeskyttet(c as u8))
        } by {
            if i < foran.len() {
                assert(kodet(b)[i] == foran[i]);
            } else {
                assert(kodet(b)[i] == kodet_byte(b.last())[i - foran.len()]);
            }
        }
    }
}

/// An address at the portal: the portal's own, without slashes at its end, and the path.
pub fn adresse(portal: &str, sti: &str) -> (r: String)
    ensures
        r@ == uten_slutt(portal@, '/') + sti@,
{
    let mut ut = trim_slutt(portal, '/');
    ut.append(sti);
    ut
}

/// A slash at the end of the portal's address makes no difference.
pub proof fn skraastrek_teller_ikke(portal: Seq<char>)
    ensures
        uten_slutt(portal.push('/'), '/') == uten_slutt(portal, '/'),
{
    assert(portal.push('/').drop_last() =~= portal);
}

/// Where the contents of a folder are asked for.
pub fn liste_url(portal: &str, mappe: &str) -> (r: String)
    ensures
        r@ == uten_slutt(portal@, '/') + "/api/rawskap/transfer/liste?mappe="@ + mappe@,
{
    let mut ut = adresse(portal, "/api/rawskap/transfer/liste?mappe=");
    ut.append(mappe);
    ut
}

/// Where a machine asks to be coupled to an account.
pub fn kobling_url(portal: &str) -> (r: String)
    ensures
        r@ == uten_slutt(portal@, '/') + "/api/rawskap/transfer/kobling"@,
{
    adresse(portal, "/api/rawskap/transfer/kobling")
}

/// Where a machine asks whether its coupling has been approved.
pub fn kobling_poll_url(portal: &str, kode: &str) -> (r: String)
    ensures
        r@ == uten_slutt(portal@, '/') + "/api/rawskap/transfer/kobling?kode="@ + kode@,
{
    let mut ut = adresse(portal, "/api/rawskap/transfer/kobling?kode=");
    ut.append(kode);
    ut
}

/// Where folders are made.
pub fn mapper_url(portal: &str) -> (r: String)
    ensures
        r@ == uten_slutt(portal@, '/') + "/api/rawskap/mapper"@,
{
    adresse(portal, "/api/rawskap/mapper")
}

/// Where uploads are arranged.
pub fn opplasting_url(portal: &str) -> (r: String)
    ensures
        r@ == uten_slutt(portal@, '/') + "/api/rawskap/opplasting"@,
{
    adresse(portal, "/api/rawskap/opplasting")
}

/// Where files are put in the bin.
pub fn slett_url(portal: &str) -> (r: String)
    ensures
        r@ == uten_slutt(portal@, '/') + "/api/rawskap/slett"@,
{
    adresse(portal, "/api/rawskap/slett")
}

/// Where a shared collection is asked for.
pub fn deling_url(portal: &str, token: &str) -> (r: String)
    ensures
        r@ == uten_slutt(portal@, '/') + "/api/bildebank/samling/transfer-liste?token="@ + token@,
{
    let mut ut = adresse(portal, "/api/bildebank/samling/transfer-liste?token=");
    ut.append(token);
    ut
}

/// Where the library is searched.
pub fn sok_url(portal: &str, q: &str) -> (r: String)
    ensures
        r@ == uten_slutt(portal@, '/') + "/api/rawskap/sok-semantisk?q="@ + kodet(
            encode_utf8(q@),
        ),
{
    let mut ut = adresse(portal, "/api/rawskap/sok-semantisk?q=");
    ut.append(urlenc(q).as_str());
    ut
}

/// Whether a byte may stand in the value of a header.
pub open spec fn hodebyte(b: u8) -> bool {
    b >= 32 && b != 127 || b == 9
}

/// `reqwest::header::HeaderValue::from_str`: a text can be the value of a header exactly
/// where each of its bytes may stand in one, that is, no control character but the
/// tabulator.
#[verifier::external_body]
fn gyldig_hodeverdi(s: &str) -> (r: bool)
    ensures
        r == (forall|i: int|
            0 <= i < encode_utf8(s@).len() ==> hodebyte(#[trigger] encode_utf8(s@)[i])),
{
    reqwest::header::HeaderValue::from_str(s).is_ok()
}

/// The header that carries the key.
#[derive(Clone, Copy, Debug, PartialEq, Eq, Structural)]
pub enum Hodenavn {
    Authorization,
    Cookie,
}

/// A header of every request to the portal.
#[derive(Debug)]
pub struct Hode {
    pub navn: Hodenavn,
    pub verdi: String,
}

/// The name under which the application presents itself.
pub open spec fn brukeragent() -> Seq<char> {
    "RawskapTransfer/0.1"@
}

/// The name under which the application presents itself.
pub fn agent() -> (r: &'static str)
    ensures
        r@ == brukeragent(),
{
    "RawskapTransfer/0.1"
}

/// Whether a key is one for programs, and not that of a session.
pub open spec fn programnokkel(nokkel: Seq<char>) -> bool {
    har_prefiks(nokkel, "rsk_live_"@)
}

/// The value of the header that carries a key.
pub open spec fn nokkelverdi(nokkel: Seq<char>) -> Seq<char> {
    if programnokkel(nokkel) {
        "Bearer "@ + nokkel
    } else {
        "kunde_sesjon="@ + nokkel
    }
}

/// The header that carries a key, where the key can stand in one: a key for programs as
/// bearer, the key of a session as cookie.
pub fn klient(nokkel: &str) -> (r: Option<Hode>)
    ensures
        r is Some <==> (forall|i: int|
            0 <= i < encode_utf8(nokkelverdi(nokkel@)).len() ==> hodebyte(
                #[trigger] encode_utf8(nokkelverdi(nokkel@))[i],
            )),
        r is Some ==> r->0.verdi@ == nokkelverdi(nokkel@) && r->0.navn == if programnokkel(
            nokkel@,
        ) {
            Hodenavn::Authorization
        } else {
            Hodenavn::Cookie
        },
{
    let program = starter_med(nokkel, "rsk_live_");
    let mut verdi = if program {
        "Bearer ".to_owned()
    } else {
        "kunde_sesjon=".to_owned()
    };
    verdi.append(nokkel);
    assert(verdi@ == nokkelverdi(nokkel@));
    if !gyldig_hodeverdi(verdi.as_str()) {
        return None;
    }
    let navn = if program {
        Hodenavn::Authorization
    } else {
        Hodenavn::Cookie
    };
    Some(Hode { navn, verdi })
}

/// The usual words for a status code.
pub uninterp spec fn statusgrunn(kode: u16) -> Seq<char>;

/// A status code in words: the number, and what it means.
pub open spec fn statustekst(kode: u16) -> Seq<char> {
    desimaler(kode as nat) + " "@ + statusgrunn(kode)
}

/// `reqwest::StatusCode` as text: the number, a space, and the usual words for it.
#[verifier::external_body]
pub(crate) fn status_i_ord(kode: u16) -> (r: String)
    requires
        100 <= kode <= 999,
    ensures
        r@ == desimaler(kode as nat) + " "@ + statusgrunn(kode),
{
    reqwest::StatusCode::from_u16(kode).unwrap().to_string()
}

/// Whether a status code says that all went well.
pub open spec fn gikk_bra(kode: u16) -> bool {
    200 <= kode < 300
}

/// Whether a status code says that all went well.
pub fn er_bra(kode: u16) -> (r: bool)
    ensures
        r == gikk_bra(kode),
{
    200 <= kode && kode < 300
}

/// What is wrong with an answer.
#[derive(Debug)]
pub enum Svarfeil {
    /// It is no JSON text.
    IkkeJson,
    /// The words for the user.
    Melding(String),
}

/// The words for the user, where there are any.
pub open spec fn ordene(f: Svarfeil) -> Option<Seq<char>> {
    match f {
        Svarfeil::IkkeJson => None,
        Svarfeil::Melding(s) => Some(s@),
    }
}

/// The portal's own words, or others where it has none.
pub open spec fn error_eller(error: Option<Seq<char>>, ellers: Seq<char>) -> Seq<char> {
    match error {
        Some(e) => e,
        None => ellers,
    }
}

/// The portal's own words, or others where it has none.
pub fn melding_eller(error: &Option<String>, ellers: &str) -> (r: String)
    ensures
        r@ == error_eller(valgfri(*error), ellers@),
{
    match error {
        Some(e) => e.clone(),
        None => ellers.to_owned(),
    }
}

/// Whether `r` is what an answer comes to: the failure `feil` where there is one, else
/// what its body says.
pub open spec fn kommer_til(
    r: Result<serde_json::Value, Svarfeil>,
    feil: Option<Seq<char>>,
    kropp: Seq<u8>,
) -> bool {
    match (feil, r) {
        (Some(t), Err(f)) => ordene(f) == Some(t),
        (Some(_), Ok(_)) => false,
        (None, Ok(v)) => json_av(kropp) == Some(innhold(v)),
        (None, Err(f)) => json_av(kropp) is None && f is IkkeJson,
    }
}

fn les_om_bra(feil: Option<String>, kropp: &[u8]) -> (r: Result<serde_json::Value, Svarfeil>)
    ensures
        kommer_til(r, valgfri(feil), kropp@),
{
    match feil {
        Some(t) => Err(Svarfeil::Melding(t)),
        None => match les_json(kropp) {
            Ok(v) => Ok(v),
            Err(_) => Err(Svarfeil::IkkeJson),
        },
    }
}

/// What is wrong where the contents of a folder were asked for.
pub open spec fn liste_feil(status: u16) -> Option<Seq<char>> {
    if status == 401 || status == 403 {
        Some("Nøkkelen er ugyldig eller utløpt — lag en ny i portalen."@)
    } else if !gikk_bra(status) {
        Some("Portalen svarte "@ + statustekst(status))
    } else {
        None
    }
}

/// Decides what is wrong where the contents of a folder were asked for.
pub fn liste_dom(status: u16) -> (r: Option<String>)
    requires
        100 <= status <= 999,
    ensures
        valgfri(r) == liste_feil(status),
{
    if status == 401 || status == 403 {
        Some("Nøkkelen er ugyldig eller utløpt — lag en ny i portalen.".to_owned())
    } else {
        kobling_dom(status)
    }
}

/// The contents of a folder, from the portal's answer.
pub fn hent_liste(status: u16, kropp: &[u8]) -> (r: Result<serde_json::Value, Svarfeil>)
    requires
        100 <= status <= 999,
    ensures
        kommer_til(r, liste_feil(status), kropp@),
{
    les_om_bra(liste_dom(status), kropp)
}

/// What is wrong where a machine asked to be coupled.
pub open spec fn kobling_feil(status: u16) -> Option<Seq<char>> {
    if gikk_bra(status) {
        None
    } else {
        Some("Portalen svarte "@ + statustekst(status))
    }
}

/// Decides what is wrong where a machine asked to be coupled.
pub fn kobling_dom(status: u16) -> (r: Option<String>)
    requires
        100 <= status <= 999,
    ensures
        valgfri(r) == kobling_feil(status),
{
    if er_bra(status) {
        None
    } else {
        let mut ut = "Portalen svarte ".to_owned();
        ut.append(status_i_ord(status).as_str());
        Some(ut)
    }
}

/// The body of a machine's request to be coupled.
pub fn kobling_kropp(maskin: &str) -> (r: Kropp)
    ensures
        r.modell() == map!["maskin"@ => Json::Tekst(maskin@)],
{
    let mut k = Kropp::ny();
    k.sett_tekst("maskin", maskin);
    k
}

/// The code that a machine is coupled with, from the portal's answer.
pub fn kobling_start(status: u16, kropp: &[u8]) -> (r: Result<serde_json::Value, Svarfeil>)
    requires
        100 <= status <= 999,
    ensures
        kommer_til(r, kobling_feil(status), kropp@),
{
    les_om_bra(kobling_dom(status), kropp)
}

/// How a coupling stands, from the portal's answer.
pub fn kobling_poll(status: u16, kropp: &[u8]) -> (r: Result<serde_json::Value, Svarfeil>)
    requires
        100 <= status <= 999,
    ensures
        kommer_til(r, kobling_feil(status), kropp@),
{
    les_om_bra(kobling_dom(status), kropp)
}

/// The body of a request for a new folder.
pub fn mappe_kropp(navn: &str, forelder: &str) -> (r: Kropp)
    ensures
        r.modell() == map!["navn"@ => Json::Tekst(navn@), "forelderId"@ => mappe_av(forelder@)],
        r.modell()["navn"@] == Json::Tekst(navn@),
        forelder@.len() > 0 ==> r.modell()["forelderId"@] == Json::Tekst(forelder@),
        forelder@.len() == 0 ==> r.modell()["forelderId"@] == Json::Null,
{
    proof {
        reveal_strlit("navn");
        reveal_strlit("forelderId");
        assert("navn"@.len() == 4 && "forelderId"@.len() == 10);
    }
    let mut k = Kropp::ny();
    k.sett_tekst("navn", navn);
    k.sett("forelderId", mappe_json(forelder));
    k
}

/// What is wrong with the answer to a request for a new folder.
pub open spec fn ny_mappe_feil(
    id: Option<Seq<char>>,
    error: Option<Seq<char>>,
) -> Option<Seq<char>> {
    match id {
        Some(_) => None,
        None => Some(error_eller(error, "Kunne ikke lage mappe"@)),
    }
}

/// Decides what is wrong with the answer to a request for a new folder.
pub fn ny_mappe_dom(svar: &Svar) -> (r: Option<String>)
    ensures
        valgfri(r) == ny_mappe_feil(valgfri(svar.id), valgfri(svar.error)),
{
    match &svar.id {
        Some(_) => None,
        None => Some(melding_eller(&svar.error, "Kunne ikke lage mappe")),
    }
}

/// A new folder, from the portal's answer: refused without access, else what the body
/// says, which must name the folder.
pub fn ny_mappe(status: u16, kropp: &[u8]) -> (r: Result<serde_json::Value, Svarfeil>)
    ensures
        if status == 401 || status == 403 {
            r is Err && ordene(r->Err_0) == Some("Ikke tilgang — logg inn på nytt"@)
        } else {
            match json_av(kropp@) {
                None => r is Err && r->Err_0 is IkkeJson,
                Some(j) => match ny_mappe_feil(tekst_i(j, "id"@), tekst_i(j, "error"@)) {
                    Some(t) => r is Err && ordene(r->Err_0) == Some(t),
                    None => r is Ok && innhold(r->Ok_0) == j,
                },
            }
        },
{
    if status == 401 || status == 403 {
        return Err(Svarfeil::Melding("Ikke tilgang — logg inn på nytt".to_owned()));
    }
    match les_json(kropp) {
        Err(_) => Err(Svarfeil::IkkeJson),
        Ok(v) => match ny_mappe_dom(&Svar::av_verdi(&v)) {
            Some(t) => Err(Svarfeil::Melding(t)),
            None => Ok(v),
        },
    }
}

/// The body of a request to put files in the bin.
pub fn slett_kropp(ids: Vec<String>) -> (r: Kropp)
    ensures
        r.modell() == map!["assetIds"@ => Json::Liste(
            ids@.map_values(|s: String| Json::Tekst(s@)),
        )],
{
    let mut k = Kropp::ny();
    k.sett("assetIds", Felt::Tekster(ids));
    k
}

/// What is wrong where files were to be put in the bin.
pub fn slett_filer(status: u16) -> (r: Result<(), String>)
    requires
        100 <= status <= 999,
    ensures
        r is Ok <==> gikk_bra(status),
        r is Err ==> r->Err_0@ == "Kunne ikke slette ("@ + statustekst(status) + ")"@,
{
    if er_bra(status) {
        Ok(())
    } else {
        let mut ut = "Kunne ikke slette (".to_owned();
        ut.append(status_i_ord(status).as_str());
        ut.append(")");
        Err(ut)
    }
}

/// What is wrong with the answer to a question for a shared collection.
pub open spec fn deling_feil(status: u16, error: Option<Seq<char>>) -> Option<Seq<char>> {
    if gikk_bra(status) {
        None
    } else {
        Some(error_eller(error, "Kunne ikke hente delingen"@))
    }
}

/// Decides what is wrong with the answer to a question for a shared collection.
pub fn deling_dom(status: u16, svar: &Svar) -> (r: Option<String>)
    ensures
        valgfri(r) == deling_feil(status, valgfri(svar.error)),
{
    if er_bra(status) {
        None
    } else {
        Some(melding_eller(&svar.error, "Kunne ikke hente delingen"))
    }
}

/// A shared collection, from the portal's answer.
pub fn hent_deling(status: u16, kropp: &[u8]) -> (r: Result<serde_json::Value, Svarfeil>)
    ensures
        match json_av(kropp@) {
            None => r is Err && r->Err_0 is IkkeJson,
            Some(j) => match deling_feil(status, tekst_i(j, "error"@)) {
                Some(t) => r is Err && ordene(r->Err_0) == Some(t),
                None => r is Ok && innhold(r->Ok_0) == j,
            },
        },
{
    match les_json(kropp) {
        Err(_) => Err(Svarfeil::IkkeJson),
        Ok(v) => match deling_dom(status, &Svar::av_verdi(&v)) {
            Some(t) => Err(Svarfeil::Melding(t)),
            None => Ok(v),
        },
    }
}

/// What is wrong with the answer to a search.
pub open spec fn sok_feil(status: u16, error: Option<Seq<char>>) -> Option<Seq<char>> {
    if status == 503 {
        Some("Søk i skapet er ikke satt opp på kontoen"@)
    } else if !gikk_bra(status) {
        Some(error_eller(error, "søket feilet"@))
    } else {
        None
    }
}

/// Decides what is wrong with the answer to a search.
pub fn sok_dom(status: u16, svar: &Svar) -> (r: Option<String>)
    ensures
        valgfri(r) == sok_feil(status, valgfri(svar.error)),
{
    if status == 503 {
        Some("Søk i skapet er ikke satt opp på kontoen".to_owned())
    } else if !er_bra(status) {
        Some(melding_eller(&svar.error, "søket feilet"))
    } else {
        None
    }
}

/// What a search found, from the portal's answer.
pub fn sok(status: u16, kropp: &[u8]) -> (r: Result<serde_json::Value, Svarfeil>)
    ensures
        match json_av(kropp@) {
            None => r is Err && r->Err_0 is IkkeJson,
            Some(j) => match sok_feil(status, tekst_i(j, "error"@)) {
                Some(t) => r is Err && ordene(r->Err_0) == Some(t),
                None => r is Ok && innhold(r->Ok_0) == j,
            },
        },
{
    match les_json(kropp) {
        Err(_) => Err(Svarfeil::IkkeJson),
        Ok(v) => match sok_dom(status, &Svar::av_verdi(&v)) {
            Some(t) => Err(Svarfeil::Melding(t)),
            None => Ok(v),
        },
    }
}

/// What stands for itself in a query are the letters and digits of ASCII and four signs.
pub proof fn hva_som_staar_for_seg_selv(b: u8)
    ensures
        ubeskyttet(b) <==> {
            let c = b as char;
            'a' <= c <= 'z' || 'A' <= c <= 'Z' || '0' <= c <= '9' || c == '-' || c == '_' || c
                == '.' || c == '~'
        },
        ubeskyttet(b) ==> kodet_byte(b) == seq![b as char],
        !ubeskyttet(b) ==> kodet_byte(b).len() == 3 && kodet_byte(b)[0] == '%',
{
}

/// A key for programs is carried as bearer and the key of a session as cookie, and the value
/// holds the key as it is at its end.
pub proof fn nokkelen_baeres(nokkel: Seq<char>)
    ensures
        programnokkel("rsk_live_"@ + nokkel),
        nokkelverdi("rsk_live_"@ + nokkel) == "Bearer "@ + "rsk_live_"@ + nokkel,
        !har_prefiks(nokkel, "rsk_live_"@) ==> !programnokkel(nokkel) && nokkelverdi(nokkel)
            == "kunde_sesjon="@ + nokkel,
        har_prefiks(nokkel, "rsk_live_"@) ==> nokkelverdi(nokkel) == "Bearer "@ + nokkel,
{
    let p = "rsk_live_"@;
    assert((p + nokkel).take(p.len() as int) =~= p);
    assert("Bearer "@ + (p + nokkel) =~= "Bearer "@ + p + nokkel);
}

/// An answer is good exactly from 200 to 299, and each question has its own words for one
/// that is not; without access the contents of a folder are answered with a word on the key.
pub proof fn daarlige_svar_har_ord(status: u16, error: Option<Seq<char>>)
    ensures
        ({
            let bra = 200 <= status <= 299;
            let tall = desimaler(status as nat);
            &&& liste_feil(status) is None <==> bra
            &&& kobling_feil(status) is None <==> bra
            &&& deling_feil(status, error) is None <==> bra
            &&& sok_feil(status, error) is None <==> bra
            &&& status == 401 || status == 403 ==> liste_feil(status) == Some(
                "Nøkkelen er ugyldig eller utløpt — lag en ny i portalen."@,
            )
            &&& !bra && status != 401 && status != 403 ==> liste_feil(status) == Some(
                "Portalen svarte "@ + (tall + " "@ + statusgrunn(status)),
            )
            &&& !bra ==> kobling_feil(status) == Some(
                "Portalen svarte "@ + (tall + " "@ + statusgrunn(status)),
            )
            &&& !bra && error is Some ==> deling_feil(status, error) == error
            &&& !bra && error is None ==> deling_feil(status, error) == Some(
                "Kunne ikke hente delingen"@,
            )
            &&& status == 503 ==> sok_feil(status, error) == Some(
                "Søk i skapet er ikke satt opp på kontoen"@,
            )
            &&& !bra && status != 503 && error is Some ==> sok_feil(status, error) == error
            &&& !bra && status != 503 && error is None ==> sok_feil(status, error) == Some(
                "søket feilet"@,
            )
        }),
{
}

/// A new folder is there exactly where the answer names it; else the portal's own words say
/// why, where it has any.
pub proof fn ny_mappe_har_nummer(id: Option<Seq<char>>, error: Option<Seq<char>>)
    ensures
        ny_mappe_feil(id, error) is None <==> id is Some,
        id is None && error is Some ==> ny_mappe_feil(id, error) == error,
        id is None && error is None ==> ny_mappe_feil(id, error) == Some("Kunne ikke lage mappe"@),
{
}

/// The portal's own words come before others.
pub proof fn portalens_ord_forst(ord: Seq<char>, ellers: Seq<char>)
    ensures
        error_eller(Some(ord), ellers) == ord,
        error_eller(None, ellers) == ellers,
{
}

/// An answer comes to a failure exactly where something is wrong with it, and then in these
/// words; else to what its body says, and to a failure without words where that is no JSON.
pub proof fn svaret_kommer_til_ett(
    r: Result<serde_json::Value, Svarfeil>,
    feil: Option<Seq<char>>,
    kropp: Seq<u8>,
)
    requires
        kommer_til(r, feil, kropp),
    ensures
        r is Ok <==> feil is None && json_av(kropp) is Some,
        r is Ok ==> json_av(kropp) == Some(innhold(r->Ok_0)),
        feil is Some ==> ordene(r->Err_0) == feil,
        feil is None && r is Err ==> ordene(r->Err_0) is None,
{
}

} // verus!
