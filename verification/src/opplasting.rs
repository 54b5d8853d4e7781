//! Uploading a file: the order of the steps, and what is said to the portal and by it.
use crate::framdrift::{Melding, Status};
use crate::json::{json_av, mappe_av, mappe_json, sant_i, tekst_i, Felt, Json, Kropp, Svar};
use crate::media::{er_video, videonavn, Bilder};
use crate::multipart::DEL_GRENSE;
use crate::nedlasting::MELD_MS;
use crate::portal::{
    er_bra, error_eller, gikk_bra, melding_eller, ordene, status_i_ord, statustekst, Svarfeil,
};
use crate::tekst::{
    finn_siste, har_prefiks, siste_sted, siste_sted_er_der_det_staar, siste_sted_er_sist, tegn,
    trim_prefikser, uten_prefikser, utsnitt, valgfri,
};
use vstd::prelude::*;
use vstd::string::*;

verus! {

/// How many times the upload of a file is tried.
pub const FORSOK_OPP: u32 = 2;

/// A local file to upload.
#[derive(Clone, Debug)]
pub struct OppFil {
    pub sti: String,
    pub relativ: String,
    pub bytes: u64,
}

/// What the portal is told of a file, besides what it has been told already.
pub open spec fn filbeskrivelse(
    foran: Map<Seq<char>, Json>,
    navn: Seq<char>,
    mime: Seq<char>,
    bytes: u64,
    sist: u64,
    mappe_id: Seq<char>,
) -> Map<Seq<char>, Json> {
    foran.insert("filnavn"@, Json::Tekst(navn)).insert("mimeType"@, Json::Tekst(mime)).insert(
        "filstorrelse"@,
        Json::Tall(Some(bytes)),
    ).insert("sistEndret"@, Json::Tall(Some(sist))).insert("mappeId"@, mappe_av(mappe_id))
}

/// Whether a body tells of a file under the names that the portal knows: its name, its kind,
/// its size, when it was changed, and its folder, which is nothing for the topmost.
pub open spec fn beskriver(
    m: Map<Seq<char>, Json>,
    navn: Seq<char>,
    mime: Seq<char>,
    bytes: u64,
    sist: u64,
    mappe_id: Seq<char>,
) -> bool {
    &&& m.contains_key("filnavn"@) && m["filnavn"@] == Json::Tekst(navn)
    &&& m.contains_key("mimeType"@) && m["mimeType"@] == Json::Tekst(mime)
    &&& m.contains_key("filstorrelse"@) && m["filstorrelse"@] == Json::Tall(Some(bytes))
    &&& m.contains_key("sistEndret"@) && m["sistEndret"@] == Json::Tall(Some(sist))
    &&& m.contains_key("mappeId"@)
    &&& mappe_id.len() == 0 ==> m["mappeId"@] == Json::Null
    &&& mappe_id.len() > 0 ==> m["mappeId"@] == Json::Tekst(mappe_id)
}

/// What tells the names of the fields apart: how long they are, and how they begin.
pub proof fn ulike_feltnavn()
    ensures
        "filnavn"@.len() == 7 && "filnavn"@[0] == 'f',
        "mimeType"@.len() == 8 && "mimeType"@[0] == 'm',
        "filstorrelse"@.len() == 12 && "filstorrelse"@[0] == 'f',
        "sistEndret"@.len() == 10 && "sistEndret"@[0] == 's',
        "mappeId"@.len() == 7 && "mappeId"@[0] == 'm',
        "action"@.len() == 6 && "action"@[0] == 'a',
        "originalKey"@.len() == 11 && "originalKey"@[0] == 'o',
        "xxh64"@.len() == 5 && "xxh64"@[0] == 'x',
        "proxyKey"@.len() == 8 && "proxyKey"@[0] == 'p',
        "proxyStorrelse"@.len() == 14 && "proxyStorrelse"@[0] == 'p',
        "bredde"@.len() == 6 && "bredde"@[0] == 'b',
        "hoyde"@.len() == 5 && "hoyde"@[0] == 'h',
        "posterBase64"@.len() == 12 && "posterBase64"@[0] == 'p',
        "spriteBase64"@.len() == 12 && "spriteBase64"@[0] == 's',
        "spriteFrames"@.len() == 12 && "spriteFrames"@[0] == 's',
        "spriteBase64"@[6] == 'B',
        "spriteFrames"@[6] == 'F',
{
    reveal_strlit("filnavn");
    reveal_strlit("mimeType");
    reveal_strlit("filstorrelse");
    reveal_strlit("sistEndret");
    reveal_strlit("mappeId");
    reveal_strlit("action");
    reveal_strlit("originalKey");
    reveal_strlit("xxh64");
    reveal_strlit("proxyKey");
    reveal_strlit("proxyStorrelse");
    reveal_strlit("bredde");
    reveal_strlit("hoyde");
    reveal_strlit("posterBase64");
    reveal_strlit("spriteBase64");
    reveal_strlit("spriteFrames");
}

/// Tells the portal of a file: its name, kind and size, when it was changed, and the
/// folder that it goes to.
pub fn fil_kropp(k: &mut Kropp, navn: &str, mime: &str, bytes: u64, sist: u64, mappe_id: &str)
    ensures
        final(k).modell() == filbeskrivelse(
            old(k).modell(),
            navn@,
            mime@,
            bytes,
            sist,
            mappe_id@,
        ),
        beskriver(final(k).modell(), navn@, mime@, bytes, sist, mappe_id@),
{
    proof {
        fila_beskrives(k.modell(), navn@, mime@, bytes, sist, mappe_id@);
    }
    k.sett_tekst("filnavn", navn);
    k.sett_tekst("mimeType", mime);
    k.sett_tall("filstorrelse", bytes);
    k.sett_tall("sistEndret", sist);
    k.sett("mappeId", mappe_json(mappe_id));
}

/// The body of a request for an address to put a file at.
pub fn presign_kropp(navn: &str, mime: &str, bytes: u64, sist: u64, mappe_id: &str) -> (r: Kropp)
    ensures
        r.modell() == filbeskrivelse(
            map!["action"@ => Json::Tekst("presign"@)],
            navn@,
            mime@,
            bytes,
            sist,
            mappe_id@,
        ),
        r.modell().contains_key("action"@) && r.modell()["action"@] == Json::Tekst("presign"@),
        beskriver(r.modell(), navn@, mime@, bytes, sist, mappe_id@),
{
    proof {
        fila_beskrives(
            map!["action"@ => Json::Tekst("presign"@)],
            navn@,
            mime@,
            bytes,
            sist,
            mappe_id@,
        );
        ulike_feltnavn();
    }
    let mut k = Kropp::ny();
    k.sett_tekst("action", "presign");
    fil_kropp(&mut k, navn, mime, bytes, sist, mappe_id);
    k
}

/// Where a file is to be put: the address, the key of the file, and where a version for
/// playback can be put; the last is empty where none is wanted.
#[derive(Debug)]
pub struct Plass {
    pub url: String,
    pub key: String,
    pub proxy_put: String,
}

/// What is wrong with the answer to a request for an address.
pub open spec fn presign_feil(
    full: bool,
    upload_url: Option<Seq<char>>,
    original_key: Option<Seq<char>>,
    error: Option<Seq<char>>,
) -> Option<Seq<char>> {
    if full {
        Some(error_eller(error, "Lagringen er full"@))
    } else if upload_url is Some && original_key is Some {
        None
    } else {
        Some(error_eller(error, "presign feilet"@))
    }
}

/// Where a file is to be put, or what is wrong.
pub fn presign_dom(svar: Svar) -> (r: Result<Plass, String>)
    ensures
        match presign_feil(
            svar.kvote_sperre,
            valgfri(svar.upload_url),
            valgfri(svar.original_key),
            valgfri(svar.error),
        ) {
            Some(t) => r is Err && r->Err_0@ == t,
            None => {
                &&& r is Ok
                &&& Some(r->Ok_0.url@) == valgfri(svar.upload_url)
                &&& Some(r->Ok_0.key@) == valgfri(svar.original_key)
                &&& r->Ok_0.proxy_put@ == error_eller(valgfri(svar.proxy_put_url), Seq::empty())
            },
        },
{
    if svar.kvote_sperre {
        return Err(melding_eller(&svar.error, "Lagringen er full"));
    }
    match (svar.upload_url, svar.original_key) {
        (Some(url), Some(key)) => Ok(
            Plass {
                url,
                key,
                proxy_put: match svar.proxy_put_url {
                    Some(u) => u,
                    None => String::new(),
                },
            },
        ),
        _ => Err(melding_eller(&svar.error, "presign feilet")),
    }
}

/// Where a file is to be put, from the portal's answer.
pub fn presign_svar(status: u16, kropp: &[u8]) -> (r: Result<Plass, Svarfeil>)
    ensures
        if status == 401 || status == 403 {
            r is Err && ordene(r->Err_0) == Some(
                "Ikke tilgang — logg inn på nytt (API-nøkler kan ikke laste opp)"@,
            )
        } else {
            match json_av(kropp@) {
                None => r is Err && r->Err_0 is IkkeJson,
                Some(j) => match presign_feil(
                    sant_i(j, "kvoteSperre"@),
                    tekst_i(j, "uploadUrl"@),
                    tekst_i(j, "originalKey"@),
                    tekst_i(j, "error"@),
                ) {
                    Some(t) => r is Err && ordene(r->Err_0) == Some(t),
                    None => {
                        &&& r is Ok
                        &&& Some(r->Ok_0.url@) == tekst_i(j, "uploadUrl"@)
                        &&& Some(r->Ok_0.key@) == tekst_i(j, "originalKey"@)
                        &&& r->Ok_0.proxy_put@ == error_eller(
                            tekst_i(j, "proxyPutUrl"@),
                            Seq::empty(),
                        )
                    },
                },
            }
        },
{
    if status == 401 || status == 403 {
        return Err(
            Svarfeil::Melding(
                "Ikke tilgang — logg inn på nytt (API-nøkler kan ikke laste opp)".to_owned(),
            ),
        );
    }
    match Svar::les(kropp) {
        None => Err(Svarfeil::IkkeJson),
        Some(svar) => match presign_dom(svar) {
            Ok(p) => Ok(p),
            Err(t) => Err(Svarfeil::Melding(t)),
        },
    }
}

/// The body of a request to forget a file that was not sent to its end.
pub fn avbryt_kropp(key: &str) -> (r: Kropp)
    ensures
        r.modell() == map![
            "action"@ => Json::Tekst("avbryt"@),
            "originalKeys"@ => Json::Liste(seq![Json::Tekst(key@)])
        ],
{
    let mut keys: Vec<String> = Vec::new();
    keys.push(key.to_owned());
    assert(keys@.map_values(|s: String| Json::Tekst(s@)) =~= seq![Json::Tekst(key@)]);
    let mut k = Kropp::ny();
    k.sett_tekst("action", "avbryt");
    k.sett("originalKeys", Felt::Tekster(keys));
    k
}

/// The report on a file that is being sent, each 150 milliseconds and at its end.
pub fn sendt_melding(sendt: u64, bytes: u64, siden_ms: u64) -> (r: Option<Melding>)
    ensures
        r == if siden_ms > MELD_MS || sendt == bytes {
            Some(Melding { hentet: sendt, total: bytes, status: Status::Laster })
        } else {
            None
        },
{
    if siden_ms > MELD_MS || sendt == bytes {
        Some(Melding { hentet: sendt, total: bytes, status: Status::Laster })
    } else {
        None
    }
}

/// Whether a version for playback is made: of a video only, and only where the portal has
/// given an address for it.
pub fn lag_proxy_hvis_video(put_url: &str, navn: &str) -> (r: bool)
    ensures
        r == (put_url@.len() > 0 && videonavn(navn@)),
{
    !put_url.is_empty() && er_video(navn)
}

/// A key without its folder and its kind.
pub open spec fn basis(key: Seq<char>) -> Seq<char> {
    let uten = uten_prefikser(key, "originals/"@);
    match siste_sted(uten, '.') {
        Some(i) => uten.take(i),
        None => uten,
    }
}

/// The key of the version for playback of the file with this key.
pub fn proxy_nokkel(key: &str) -> (r: String)
    ensures
        r@ == "proxy/"@ + basis(key@) + ".mp4"@,
{
    let uten = trim_prefikser(key, "originals/");
    let v = tegn(uten.as_str());
    let mut ut = "proxy/".to_owned();
    match finn_siste(&v, '.') {
        Some(i) => {
            assert(uten@.subrange(0, i as int) =~= uten@.take(i as int));
            ut.append(utsnitt(&v, 0, i).as_str());
        },
        None => {
            ut.append(uten.as_str());
        },
    }
    ut.append(".mp4");
    ut
}

/// The fields that tell of the checksum, where there is one.
pub open spec fn med_sum(foran: Map<Seq<char>, Json>, xxh: Option<Seq<char>>) -> Map<
    Seq<char>,
    Json,
> {
    match xxh {
        Some(x) => foran.insert("xxh64"@, Json::Tekst(x)),
        None => foran,
    }
}

/// The fields that tell of the version for playback, where there is one.
pub open spec fn med_proxy(
    foran: Map<Seq<char>, Json>,
    key: Seq<char>,
    proxy: Option<u64>,
) -> Map<Seq<char>, Json> {
    match proxy {
        Some(n) => foran.insert("proxyKey"@, Json::Tekst("proxy/"@ + basis(key) + ".mp4"@)).insert(
            "proxyStorrelse"@,
            Json::Tall(Some(n)),
        ),
        None => foran,
    }
}

/// What the portal is told when an upload is completed.
pub open spec fn fullforing(
    key: Seq<char>,
    navn: Seq<char>,
    mime: Seq<char>,
    bytes: u64,
    sist: u64,
    mappe_id: Seq<char>,
    xxh: Option<Seq<char>>,
    proxy: Option<u64>,
) -> Map<Seq<char>, Json> {
    med_proxy(
        med_sum(
            filbeskrivelse(
                map!["action"@ => Json::Tekst("fullfor"@), "originalKey"@ => Json::Tekst(key)],
                navn,
                mime,
                bytes,
                sist,
                mappe_id,
            ),
            xxh,
        ),
        key,
        proxy,
    )
}

/// The body of the request that completes an upload.
pub fn fullfor_kropp(
    key: &str,
    navn: &str,
    mime: &str,
    bytes: u64,
    sist: u64,
    mappe_id: &str,
    xxh: &Option<String>,
    proxy: Option<u64>,
) -> (r: Kropp)
    ensures
        r.modell() == fullforing(
            key@,
            navn@,
            mime@,
            bytes,
            sist,
            mappe_id@,
            valgfri(*xxh),
            proxy,
        ),
        r.modell()["action"@] == Json::Tekst("fullfor"@),
        r.modell()["originalKey"@] == Json::Tekst(key@),
        beskriver(r.modell(), navn@, mime@, bytes, sist, mappe_id@),
        xxh matches Some(x) ==> r.modell()["xxh64"@] == Json::Tekst(x@),
        proxy matches Some(n) ==> r.modell()["proxyStorrelse"@] == Json::Tall(Some(n)),
        r.modell().contains_key("xxh64"@) <==> xxh is Some,
        r.modell().contains_key("proxyKey"@) <==> proxy is Some,
{
    proof {
        fullforingen_beskrives(
            key@,
            navn@,
            mime@,
            bytes,
            sist,
            mappe_id@,
            valgfri(*xxh),
            proxy,
        );
    }
    let mut k = Kropp::ny();
    k.sett_tekst("action", "fullfor");
    k.sett_tekst("originalKey", key);
    fil_kropp(&mut k, navn, mime, bytes, sist, mappe_id);
    match xxh {
        Some(x) => k.sett_tekst("xxh64", x.as_str()),
        None => {},
    }
    match proxy {
        Some(n) => {
            k.sett_tekst("proxyKey", proxy_nokkel(key).as_str());
            k.sett_tall("proxyStorrelse", n);
        },
        None => {},
    }
    k
}

/// The fields that tell of a video's size, where it is known.
pub open spec fn med_maal(foran: Map<Seq<char>, Json>, b: Bilder) -> Map<Seq<char>, Json> {
    if b.bredde > 0 {
        foran.insert("bredde"@, Json::Tall(Some(b.bredde as u64))).insert(
            "hoyde"@,
            Json::Tall(Some(b.hoyde as u64)),
        )
    } else {
        foran
    }
}

/// The field that holds a video's poster, where there is one.
pub open spec fn med_poster(foran: Map<Seq<char>, Json>, b: Bilder) -> Map<Seq<char>, Json> {
    match b.poster {
        Some(p) => foran.insert("posterBase64"@, Json::Tekst(p@)),
        None => foran,
    }
}

/// The fields that hold the pictures to scrub through, where there are any.
pub open spec fn med_sprite(foran: Map<Seq<char>, Json>, b: Bilder) -> Map<Seq<char>, Json> {
    match b.sprite {
        Some(s) => foran.insert("spriteBase64"@, Json::Tekst(s@)).insert(
            "spriteFrames"@,
            Json::Tall(Some(b.frames as u64)),
        ),
        None => foran,
    }
}

/// Tells the portal what was found out about a video.
pub fn bilde_kropp(k: &mut Kropp, b: &Bilder)
    ensures
        final(k).modell() == med_sprite(med_poster(med_maal(old(k).modell(), *b), *b), *b),
{
    if b.bredde > 0 {
        k.sett_tall("bredde", b.bredde as u64);
        k.sett_tall("hoyde", b.hoyde as u64);
    }
    match &b.poster {
        Some(p) => k.sett_tekst("posterBase64", p.as_str()),
        None => {},
    }
    match &b.sprite {
        Some(s) => {
            k.sett_tekst("spriteBase64", s.as_str());
            k.sett_tall("spriteFrames", b.frames as u64);
        },
        None => {},
    }
}

/// What the answer to the request that completes an upload says: whether the library had
/// the file already, or what is wrong.
pub fn fullfor_dom(status: u16, svar: &Svar) -> (r: Result<bool, String>)
    ensures
        match r {
            Ok(allerede) => gikk_bra(status) && allerede == svar.allerede,
            Err(t) => !gikk_bra(status) && t@ == "fullfør: "@ + error_eller(
                valgfri(svar.error),
                "feilet"@,
            ),
        },
{
    if er_bra(status) {
        Ok(svar.allerede)
    } else {
        let mut ut = "fullfør: ".to_owned();
        ut.append(melding_eller(&svar.error, "feilet").as_str());
        Err(ut)
    }
}

/// What became of an upload, from the portal's answer to the request that completes it. A
/// body that is no JSON text says nothing.
pub fn fullfor_opplasting(status: u16, kropp: &[u8]) -> (r: Result<bool, String>)
    ensures
        ({
            let j = match json_av(kropp@) {
                Some(j) => j,
                None => Json::Objekt(Map::empty()),
            };
            match r {
                Ok(allerede) => gikk_bra(status) && allerede == sant_i(j, "allerede"@),
                Err(t) => !gikk_bra(status) && t@ == "fullfør: "@ + error_eller(
                    tekst_i(j, "error"@),
                    "feilet"@,
                ),
            }
        }),
{
    fullfor_dom(status, &Svar::les_eller_tomt(kropp))
}

/// What is known of an upload before it begins.
#[derive(Clone, Copy, Debug, PartialEq, Eq, Structural)]
pub struct Oppgave {
    pub bytes: u64,
    pub video: bool,
}

/// Describes the upload of a file.
pub fn oppgave(navn: &str, bytes: u64) -> (r: Oppgave)
    ensures
        r == (Oppgave { bytes, video: videonavn(navn@) }),
{
    Oppgave { bytes, video: er_video(navn) }
}

/// Why an upload failed.
#[derive(Clone, Copy, Debug, PartialEq, Eq, Structural)]
pub enum Feil {
    /// The disk or the network failed, in words of their own.
    Ytre,
    /// The answer that was last read says what is wrong.
    Svar,
    Avbrutt,
    /// The storage refused the file.
    Lageret(u16),
}

/// The words for a failure, where the library has them.
pub open spec fn feiltekst(f: Feil) -> Option<Seq<char>> {
    match f {
        Feil::Ytre => None,
        Feil::Svar => None,
        Feil::Avbrutt => Some("Avbrutt"@),
        Feil::Lageret(kode) => Some("Lageret svarte "@ + statustekst(kode)),
    }
}

impl Feil {
    /// The words for a failure, where the library has them.
    pub fn tekst(self) -> (r: Option<String>)
        requires
            self matches Feil::Lageret(kode) ==> 100 <= kode <= 999,
        ensures
            valgfri(r) == feiltekst(self),
    {
        match self {
            Feil::Ytre => None,
            Feil::Svar => None,
            Feil::Avbrutt => Some("Avbrutt".to_owned()),
            Feil::Lageret(kode) => {
                let mut ut = "Lageret svarte ".to_owned();
                ut.append(status_i_ord(kode).as_str());
                Some(ut)
            },
        }
    }
}

/// What an upload waits for.
#[derive(Clone, Copy, Debug, PartialEq, Eq, Structural)]
pub enum Trinn {
    /// The checksum.
    Sum,
    /// An address from the portal.
    Presign,
    /// The file is being opened.
    Apne,
    /// The storage's answer.
    Put,
    /// The portal is being told to forget the file.
    Avbestill,
    /// The file is being sent in parts.
    Deler,
    /// The version for playback.
    Proxy,
    /// The poster and the pictures to scrub through.
    Bilder,
    /// The portal's word that the upload is complete.
    Fullfor,
    /// The upload is over.
    Over,
}

/// The state of an upload.
#[derive(Clone, Copy, Debug, PartialEq, Eq, Structural)]
pub struct Opp {
    pub trinn: Trinn,
    /// Whether a version for playback is to be made.
    pub lag_proxy: bool,
    /// The size of the version for playback that is in the storage.
    pub proxy: Option<u64>,
}

/// What came of an action.
#[derive(Clone, Copy, Debug, PartialEq, Eq, Structural)]
pub enum Hendelse {
    /// It was done.
    Gjort,
    /// The disk or the network failed.
    Ytre,
    /// The portal gave an address, and whether a version for playback is to be made, or it
    /// gave an answer that says what is wrong.
    Presignert { ok: bool, lag_proxy: bool },
    /// The storage answered, or did not, and whether the user had asked to stop by then.
    Sendt { avbrutt: bool, status: Option<u16> },
    /// The file went in parts, or not, and whether a version for playback is to be made.
    Delt { ok: bool, lag_proxy: bool },
    /// The size of the version for playback, where one was made and stored.
    Proxy(Option<u64>),
    /// The portal answered to the request that completes the upload: well, and whether it
    /// had the file already, or not.
    Fullfort { ok: bool, allerede: bool },
}

/// What the application is to do next.
#[derive(Clone, Copy, Debug, PartialEq, Eq, Structural)]
pub enum Handling {
    BeregnSum,
    Presign,
    Apne,
    Send,
    Avbestill,
    SendDeler,
    LagProxy,
    LagBilder,
    Fullfor,
    /// The file is in the library.
    Ferdig,
    Feilet(Feil),
}

/// A step: what to report, and what to do after that.
#[derive(Clone, Copy, Debug, PartialEq, Eq, Structural)]
pub struct Steg {
    pub melding: Option<Melding>,
    /// What to report after the first.
    pub og: Option<Melding>,
    pub handling: Handling,
}

pub open spec fn stille(handling: Handling) -> Steg {
    Steg { melding: None, og: None, handling }
}

pub open spec fn meldt(hentet: u64, total: u64, status: Status, handling: Handling) -> Steg {
    Steg { melding: Some(Melding { hentet, total, status }), og: None, handling }
}

/// Whether an event can come of what the upload waits for.
pub open spec fn mulig(t: Opp, h: Hendelse) -> bool {
    match (t.trinn, h) {
        (Trinn::Sum, Hendelse::Gjort) => true,
        (Trinn::Presign, Hendelse::Presignert { .. }) => true,
        (Trinn::Presign, Hendelse::Ytre) => true,
        (Trinn::Apne, Hendelse::Gjort) => true,
        (Trinn::Apne, Hendelse::Ytre) => true,
        (Trinn::Put, Hendelse::Sendt { .. }) => true,
        (Trinn::Avbestill, Hendelse::Gjort) => true,
        (Trinn::Deler, Hendelse::Delt { .. }) => true,
        (Trinn::Proxy, Hendelse::Proxy(_)) => true,
        (Trinn::Bilder, Hendelse::Gjort) => true,
        (Trinn::Fullfor, Hendelse::Fullfort { .. }) => true,
        (Trinn::Fullfor, Hendelse::Ytre) => true,
        _ => false,
    }
}

/// The upload fails.
pub open spec fn feilet(t: Opp, f: Feil) -> (Opp, Steg) {
    ((Opp { trinn: Trinn::Over, ..t }), stille(Handling::Feilet(f)))
}

/// The step by which an upload is completed; for a video, its pictures come first.
pub open spec fn fullfores(o: Oppgave, t: Opp, proxy: Option<u64>) -> (Opp, Steg) {
    let fullfor = Melding { hentet: o.bytes, total: o.bytes, status: Status::Fullfor };
    if o.video {
        (
            (Opp { trinn: Trinn::Bilder, proxy, ..t }),
            (Steg {
                melding: Some(fullfor),
                og: Some(Melding { hentet: o.bytes, total: o.bytes, status: Status::Thumbs }),
                handling: Handling::LagBilder,
            }),
        )
    } else {
        (
            (Opp { trinn: Trinn::Fullfor, proxy, ..t }),
            (Steg { melding: Some(fullfor), og: None, handling: Handling::Fullfor }),
        )
    }
}

/// The step after the file is in the storage.
pub open spec fn lagret(o: Oppgave, t: Opp) -> (Opp, Steg) {
    if t.lag_proxy {
        (
            (Opp { trinn: Trinn::Proxy, ..t }),
            meldt(o.bytes, o.bytes, Status::Proxy, Handling::LagProxy),
        )
    } else {
        fullfores(o, t, None)
    }
}

/// The next step of an upload.
pub open spec fn neste(o: Oppgave, t: Opp, h: Hendelse) -> (Opp, Steg) {
    match (t.trinn, h) {
        (Trinn::Sum, Hendelse::Gjort) => if o.bytes > DEL_GRENSE {
            ((Opp { trinn: Trinn::Deler, ..t }), stille(Handling::SendDeler))
        } else {
            (
                (Opp { trinn: Trinn::Presign, ..t }),
                meldt(0, o.bytes, Status::Kobler, Handling::Presign),
            )
        },
        (Trinn::Presign, Hendelse::Presignert { ok, lag_proxy }) => if ok {
            ((Opp { trinn: Trinn::Apne, lag_proxy, ..t }), stille(Handling::Apne))
        } else {
            feilet(t, Feil::Svar)
        },
        (Trinn::Apne, Hendelse::Gjort) => (
            (Opp { trinn: Trinn::Put, ..t }),
            stille(Handling::Send),
        ),
        (Trinn::Put, Hendelse::Sendt { avbrutt, status }) => if avbrutt {
            ((Opp { trinn: Trinn::Avbestill, ..t }), stille(Handling::Avbestill))
        } else {
            match status {
                None => feilet(t, Feil::Ytre),
                Some(kode) => if gikk_bra(kode) {
                    lagret(o, t)
                } else {
                    feilet(t, Feil::Lageret(kode))
                },
            }
        },
        (Trinn::Avbestill, Hendelse::Gjort) => feilet(t, Feil::Avbrutt),
        (Trinn::Deler, Hendelse::Delt { ok, lag_proxy }) => if ok {
            lagret(o, (Opp { lag_proxy, ..t }))
        } else {
            feilet(t, Feil::Svar)
        },
        (Trinn::Proxy, Hendelse::Proxy(proxy)) => fullfores(o, t, proxy),
        (Trinn::Bilder, Hendelse::Gjort) => (
            (Opp { trinn: Trinn::Fullfor, ..t }),
            stille(Handling::Fullfor),
        ),
        (Trinn::Fullfor, Hendelse::Fullfort { ok, allerede }) => if ok {
            (
                (Opp { trinn: Trinn::Over, ..t }),
                meldt(
                    o.bytes,
                    o.bytes,
                    if allerede {
                        Status::Hoppet
                    } else {
                        Status::Ferdig
                    },
                    Handling::Ferdig,
                ),
            )
        } else {
            feilet(t, Feil::Svar)
        },
        _ => feilet(t, Feil::Ytre),
    }
}

/// The state in which an upload begins.
pub open spec fn begynnelse() -> Opp {
    Opp { trinn: Trinn::Sum, lag_proxy: false, proxy: None }
}

/// The step with which an upload begins.
pub open spec fn forste_steg(o: Oppgave) -> Steg {
    meldt(0, o.bytes, Status::Hash, Handling::BeregnSum)
}

fn stille_steg(handling: Handling) -> (r: Steg)
    ensures
        r == stille(handling),
{
    Steg { melding: None, og: None, handling }
}

fn meldt_steg(hentet: u64, total: u64, status: Status, handling: Handling) -> (r: Steg)
    ensures
        r == meldt(hentet, total, status, handling),
{
    Steg { melding: Some(Melding { hentet, total, status }), og: None, handling }
}

impl Opp {
    /// An upload begins with the checksum of the file.
    pub fn begynn(o: Oppgave) -> (r: (Opp, Steg))
        ensures
            r.0 == begynnelse(),
            r.1 == forste_steg(o),
    {
        (
            Opp { trinn: Trinn::Sum, lag_proxy: false, proxy: None },
            meldt_steg(0, o.bytes, Status::Hash, Handling::BeregnSum),
        )
    }

    /// Whether an event can come of what the upload waits for.
    pub fn kan_motta(&self, h: Hendelse) -> (r: bool)
        ensures
            r == mulig(*self, h),
    {
        match (self.trinn, h) {
            (Trinn::Sum, Hendelse::Gjort) => true,
            (Trinn::Presign, Hendelse::Presignert { ok: _, lag_proxy: _ }) => true,
            (Trinn::Presign, Hendelse::Ytre) => true,
            (Trinn::Apne, Hendelse::Gjort) => true,
            (Trinn::Apne, Hendelse::Ytre) => true,
            (Trinn::Put, Hendelse::Sendt { avbrutt: _, status: _ }) => true,
            (Trinn::Avbestill, Hendelse::Gjort) => true,
            (Trinn::Deler, Hendelse::Delt { ok: _, lag_proxy: _ }) => true,
            (Trinn::Proxy, Hendelse::Proxy(_)) => true,
            (Trinn::Bilder, Hendelse::Gjort) => true,
            (Trinn::Fullfor, Hendelse::Fullfort { ok: _, allerede: _ }) => true,
            (Trinn::Fullfor, Hendelse::Ytre) => true,
            _ => false,
        }
    }

    fn til(&self, trinn: Trinn) -> (r: Opp)
        ensures
            r == (Opp { trinn, ..*self }),
    {
        Opp { trinn, lag_proxy: self.lag_proxy, proxy: self.proxy }
    }

    fn feil(&self, f: Feil) -> (r: (Opp, Steg))
        ensures
            r == feilet(*self, f),
    {
        (self.til(Trinn::Over), stille_steg(Handling::Feilet(f)))
    }

    fn fullfor(&self, o: Oppgave, proxy: Option<u64>) -> (r: (Opp, Steg))
        ensures
            r == fullfores(o, *self, proxy),
    {
        let fullfor = Melding { hentet: o.bytes, total: o.bytes, status: Status::Fullfor };
        if o.video {
            (
                Opp { trinn: Trinn::Bilder, lag_proxy: self.lag_proxy, proxy },
                Steg {
                    melding: Some(fullfor),
                    og: Some(
                        Melding { hentet: o.bytes, total: o.bytes, status: Status::Thumbs },
                    ),
                    handling: Handling::LagBilder,
                },
            )
        } else {
            (
                Opp { trinn: Trinn::Fullfor, lag_proxy: self.lag_proxy, proxy },
                Steg { melding: Some(fullfor), og: None, handling: Handling::Fullfor },
            )
        }
    }

    fn er_lagret(&self, o: Oppgave) -> (r: (Opp, Steg))
        ensures
            r == lagret(o, *self),
    {
        if self.lag_proxy {
            (
                self.til(Trinn::Proxy),
                meldt_steg(o.bytes, o.bytes, Status::Proxy, Handling::LagProxy),
            )
        } else {
            self.fullfor(o, None)
        }
    }
}

/// Takes the next step of an upload.
pub fn last_opp_en(o: Oppgave, t: Opp, h: Hendelse) -> (r: (Opp, Steg))
    requires
        mulig(t, h),
    ensures
        r == neste(o, t, h),
{
    match (t.trinn, h) {
        (Trinn::Sum, Hendelse::Gjort) => {
            if o.bytes > DEL_GRENSE {
                (t.til(Trinn::Deler), stille_steg(Handling::SendDeler))
            } else {
                (
                    t.til(Trinn::Presign),
                    meldt_steg(0, o.bytes, Status::Kobler, Handling::Presign),
                )
            }
        },
        (Trinn::Presign, Hendelse::Presignert { ok, lag_proxy }) => {
            if ok {
                (
                    Opp { trinn: Trinn::Apne, lag_proxy, proxy: t.proxy },
                    stille_steg(Handling::Apne),
                )
            } else {
                t.feil(Feil::Svar)
            }
        },
        (Trinn::Apne, Hendelse::Gjort) => (t.til(Trinn::Put), stille_steg(Handling::Send)),
        (Trinn::Put, Hendelse::Sendt { avbrutt, status }) => {
            if avbrutt {
                (t.til(Trinn::Avbestill), stille_steg(Handling::Avbestill))
            } else {
                match status {
                    None => t.feil(Feil::Ytre),
                    Some(kode) => {
                        if er_bra(kode) {
                            t.er_lagret(o)
                        } else {
                            t.feil(Feil::Lageret(kode))
                        }
                    },
                }
            }
        },
        (Trinn::Avbestill, Hendelse::Gjort) => t.feil(Feil::Avbrutt),
        (Trinn::Deler, Hendelse::Delt { ok, lag_proxy }) => {
            if ok {
                (Opp { trinn: t.trinn, lag_proxy, proxy: t.proxy }).er_lagret(o)
            } else {
                t.feil(Feil::Svar)
            }
        },
        (Trinn::Proxy, Hendelse::Proxy(proxy)) => t.fullfor(o, proxy),
        (Trinn::Bilder, Hendelse::Gjort) => {
            (t.til(Trinn::Fullfor), stille_steg(Handling::Fullfor))
        },
        (Trinn::Fullfor, Hendelse::Fullfort { ok, allerede }) => {
            if ok {
                let status = if allerede {
                    Status::Hoppet
                } else {
                    Status::Ferdig
                };
                (
                    t.til(Trinn::Over),
                    meldt_steg(o.bytes, o.bytes, status, Handling::Ferdig),
                )
            } else {
                t.feil(Feil::Svar)
            }
        },
        _ => t.feil(Feil::Ytre),
    }
}

/// The state and the step that a course of events leads to.
pub open spec fn kjort(o: Oppgave, hs: Seq<Hendelse>) -> (Opp, Steg)
    decreases hs.len(),
{
    if hs.len() == 0 {
        (begynnelse(), forste_steg(o))
    } else {
        neste(o, kjort(o, hs.drop_last()).0, hs.last())
    }
}

/// Whether each event can come of the step before it.
pub open spec fn mulig_lop(o: Oppgave, hs: Seq<Hendelse>) -> bool
    decreases hs.len(),
{
    hs.len() > 0 ==> mulig_lop(o, hs.drop_last()) && mulig(kjort(o, hs.drop_last()).0, hs.last())
}

/// Whether an event says that the whole file is in the storage.
pub open spec fn er_i_lageret(h: Hendelse) -> bool {
    match h {
        Hendelse::Sendt { avbrutt, status } => !avbrutt && status is Some && gikk_bra(status->0),
        Hendelse::Delt { ok, .. } => ok,
        _ => false,
    }
}

/// Whether the upload is past the storage.
pub open spec fn etter_lageret(t: Trinn) -> bool {
    t == Trinn::Proxy || t == Trinn::Bilder || t == Trinn::Fullfor
}

/// An upload is completed only once the storage has taken the file.
pub proof fn fullfores_bare_naar_lagret(o: Oppgave, hs: Seq<Hendelse>)
    requires
        mulig_lop(o, hs),
        etter_lageret(kjort(o, hs).0.trinn) || kjort(o, hs).1.handling == Handling::Ferdig,
    ensures
        exists|i: int| 0 <= i < hs.len() && er_i_lageret(#[trigger] hs[i]),
    decreases hs.len(),
{
    if hs.len() > 0 {
        let foer = kjort(o, hs.drop_last()).0;
        if etter_lageret(foer.trinn) {
            fullfores_bare_naar_lagret(o, hs.drop_last());
            let i = choose|i: int|
                0 <= i < hs.drop_last().len() && er_i_lageret(#[trigger] hs.drop_last()[i]);
            assert(er_i_lageret(hs[i]));
        } else {
            assert(er_i_lageret(hs[hs.len() - 1]));
        }
    }
}

/// A course of events in which no version for playback could be made.
pub open spec fn uten_proxy(hs: Seq<Hendelse>) -> Seq<Hendelse> {
    hs.map_values(
        |h: Hendelse|
            match h {
                Hendelse::Proxy(_) => Hendelse::Proxy(None),
                _ => h,
            },
    )
}

/// A version for playback that could not be made never topples an upload: every step is
/// the same with it and without.
pub proof fn manglende_proxy_velter_ikke(o: Oppgave, hs: Seq<Hendelse>)
    ensures
        kjort(o, uten_proxy(hs)).1 == kjort(o, hs).1,
        kjort(o, uten_proxy(hs)).0.trinn == kjort(o, hs).0.trinn,
        kjort(o, uten_proxy(hs)).0.lag_proxy == kjort(o, hs).0.lag_proxy,
        mulig_lop(o, uten_proxy(hs)) == mulig_lop(o, hs),
    decreases hs.len(),
{
    if hs.len() > 0 {
        manglende_proxy_velter_ikke(o, hs.drop_last());
        assert(uten_proxy(hs).drop_last() =~= uten_proxy(hs.drop_last()));
    }
}

/// Where the user has stopped an upload that was being sent in one piece, the portal is
/// told to forget the file before the upload is given up.
pub proof fn avbrutt_ryddes(o: Oppgave, hs: Seq<Hendelse>)
    requires
        mulig_lop(o, hs),
        kjort(o, hs).1.handling == Handling::Feilet(Feil::Avbrutt),
    ensures
        hs.len() > 0,
        kjort(o, hs.drop_last()).1.handling == Handling::Avbestill,
{
    let foer = hs.drop_last();
    if foer.len() > 0 {
        let t = kjort(o, foer.drop_last()).0;
        assert(kjort(o, foer) == neste(o, t, foer.last()));
    }
}

/// An upload that is over takes no more steps.
pub proof fn over_er_over(t: Opp, h: Hendelse)
    requires
        t.trinn == Trinn::Over,
    ensures
        !mulig(t, h),
{
}

/// Whatever a body says already, a file is told of field by field: under `filnavn` stands its
/// name, under `mimeType` its kind, under `filstorrelse` its size, under `sistEndret` when it
/// was changed, and under `mappeId` its folder; every other field stays as it is.
pub proof fn fila_beskrives(
    foran: Map<Seq<char>, Json>,
    navn: Seq<char>,
    mime: Seq<char>,
    bytes: u64,
    sist: u64,
    mappe_id: Seq<char>,
)
    ensures
        ({
            let m = filbeskrivelse(foran, navn, mime, bytes, sist, mappe_id);
            &&& m["filnavn"@] == Json::Tekst(navn)
            &&& m["mimeType"@] == Json::Tekst(mime)
            &&& m["filstorrelse"@] == Json::Tall(Some(bytes))
            &&& m["sistEndret"@] == Json::Tall(Some(sist))
            &&& mappe_id.len() == 0 ==> m["mappeId"@] == Json::Null
            &&& mappe_id.len() > 0 ==> m["mappeId"@] == Json::Tekst(mappe_id)
            &&& beskriver(m, navn, mime, bytes, sist, mappe_id)
            &&& forall|k: Seq<char>|
                k != "filnavn"@ && k != "mimeType"@ && k != "filstorrelse"@ && k != "sistEndret"@
                    && k != "mappeId"@ ==> (#[trigger] m.contains_key(k) <==> foran.contains_key(k))
                    && (m.contains_key(k) ==> m[k] == foran[k])
        }),
{
    ulike_feltnavn();
}

/// The body that completes an upload tells of the file field by field, names its key, and
/// tells of its checksum and of its version for playback exactly where there is one.
pub proof fn fullforingen_beskrives(
    key: Seq<char>,
    navn: Seq<char>,
    mime: Seq<char>,
    bytes: u64,
    sist: u64,
    mappe_id: Seq<char>,
    xxh: Option<Seq<char>>,
    proxy: Option<u64>,
)
    ensures
        ({
            let m = fullforing(key, navn, mime, bytes, sist, mappe_id, xxh, proxy);
            &&& m["action"@] == Json::Tekst("fullfor"@)
            &&& m["originalKey"@] == Json::Tekst(key)
            &&& m["filnavn"@] == Json::Tekst(navn)
            &&& m["mimeType"@] == Json::Tekst(mime)
            &&& m["filstorrelse"@] == Json::Tall(Some(bytes))
            &&& m["sistEndret"@] == Json::Tall(Some(sist))
            &&& beskriver(m, navn, mime, bytes, sist, mappe_id)
            &&& m.contains_key("action"@) && m.contains_key("originalKey"@)
            &&& m.contains_key("xxh64"@) <==> xxh is Some
            &&& xxh matches Some(x) ==> m["xxh64"@] == Json::Tekst(x)
            &&& m.contains_key("proxyKey"@) <==> proxy is Some
            &&& m.contains_key("proxyStorrelse"@) <==> proxy is Some
            &&& proxy matches Some(n) ==> m["proxyStorrelse"@] == Json::Tall(Some(n))
        }),
{
    ulike_feltnavn();
    fila_beskrives(
        map!["action"@ => Json::Tekst("fullfor"@), "originalKey"@ => Json::Tekst(key)],
        navn,
        mime,
        bytes,
        sist,
        mappe_id,
    );
}

/// The key of a version for playback is that of its file: without the folder in front, and
/// with another kind. `rest` is the kind of the file.
pub proof fn proxyens_nokkel(stamme: Seq<char>, rest: Seq<char>)
    requires
        !rest.contains('.'),
        !har_prefiks(stamme + "."@ + rest, "originals/"@),
    ensures
        basis("originals/"@ + stamme + "."@ + rest) == stamme,
        basis(stamme + "."@ + rest) == stamme,
{
    reveal_strlit("originals/");
    reveal_strlit(".");
    let p = "originals/"@;
    let k = stamme + "."@ + rest;
    let hele = p + stamme + "."@ + rest;
    assert(hele.take(p.len() as int) =~= p);
    assert(hele.skip(p.len() as int) =~= k);
    assert(uten_prefikser(k, p) == k);
    assert(uten_prefikser(hele, p) == k);
    assert(k =~= stamme.push('.') + rest);
    siste_sted_er_der_det_staar(stamme, '.', rest);
    assert(k.take(stamme.len() as int) =~= stamme);
}

/// A key without a kind keeps its name.
pub proof fn proxyens_nokkel_uten_type(stamme: Seq<char>)
    requires
        !stamme.contains('.'),
        !har_prefiks(stamme, "originals/"@),
    ensures
        basis("originals/"@ + stamme) == stamme,
        basis(stamme) == stamme,
{
    reveal_strlit("originals/");
    let p = "originals/"@;
    let hele = p + stamme;
    assert(hele.take(p.len() as int) =~= p);
    assert(hele.skip(p.len() as int) =~= stamme);
    assert(uten_prefikser(stamme, p) == stamme);
    assert(uten_prefikser(hele, p) == stamme);
    siste_sted_er_sist(stamme, '.');
}

/// What was found out about a video is told field by field: its width and its height where
/// they are known, its poster and its pictures to scrub through where there are any, and how
/// many these are. Nothing else is changed.
pub proof fn bildene_beskrives(foran: Map<Seq<char>, Json>, b: Bilder)
    ensures
        ({
            let m = med_sprite(med_poster(med_maal(foran, b), b), b);
            &&& b.bredde > 0 ==> m.contains_key("bredde"@) && m["bredde"@] == Json::Tall(
                Some(b.bredde as u64),
            ) && m.contains_key("hoyde"@) && m["hoyde"@] == Json::Tall(Some(b.hoyde as u64))
            &&& b.bredde == 0 ==> (m.contains_key("bredde"@) <==> foran.contains_key("bredde"@))
                && (m.contains_key("hoyde"@) <==> foran.contains_key("hoyde"@))
            &&& b.poster matches Some(p) ==> m.contains_key("posterBase64"@) && m["posterBase64"@]
                == Json::Tekst(p@)
            &&& b.poster is None ==> (m.contains_key("posterBase64"@) <==> foran.contains_key(
                "posterBase64"@,
            ))
            &&& b.sprite matches Some(p) ==> m.contains_key("spriteBase64"@) && m["spriteBase64"@]
                == Json::Tekst(p@) && m.contains_key("spriteFrames"@) && m["spriteFrames"@]
                == Json::Tall(Some(b.frames as u64))
            &&& b.sprite is None ==> (m.contains_key("spriteBase64"@) <==> foran.contains_key(
                "spriteBase64"@,
            )) && (m.contains_key("spriteFrames"@) <==> foran.contains_key("spriteFrames"@))
            &&& forall|k: Seq<char>|
                k != "bredde"@ && k != "hoyde"@ && k != "posterBase64"@ && k != "spriteBase64"@ && k
                    != "spriteFrames"@ ==> (#[trigger] m.contains_key(k) <==> foran.contains_key(
                    k,
                )) && (m.contains_key(k) ==> m[k] == foran[k])
        }),
{
    ulike_feltnavn();
}

/// A file is put nowhere where the storage is full, and else where the answer names both an
/// address and a key; the portal's own words say why not, where it has any.
pub proof fn plass_eller_ord(
    full: bool,
    url: Option<Seq<char>>,
    key: Option<Seq<char>>,
    error: Option<Seq<char>>,
)
    ensures
        ({
            let f = presign_feil(full, url, key, error);
            &&& f is None <==> !full && url is Some && key is Some
            &&& f is Some && error is Some ==> f == error
            &&& full && error is None ==> f == Some("Lagringen er full"@)
            &&& !full && f is Some && error is None ==> f == Some("presign feilet"@)
        }),
{
}

/// A file of more than 96 MiB goes in parts, and every other in one piece.
pub proof fn store_filer_i_deler(o: Oppgave, t: Opp)
    requires
        t.trinn == Trinn::Sum,
    ensures
        o.bytes > 96 * 1024 * 1024 <==> neste(o, t, Hendelse::Gjort).1.handling
            == Handling::SendDeler,
        o.bytes <= 96 * 1024 * 1024 <==> neste(o, t, Hendelse::Gjort).1.handling
            == Handling::Presign,
{
}

/// What the storage's answer to a file that was sent in one piece leads to: where the user
/// has asked to stop, the portal is told to forget the file; else the upload goes on exactly
/// where the storage took it, and the refusal is named where it did not.
pub proof fn lagerets_svar(o: Oppgave, t: Opp, avbrutt: bool, status: Option<u16>)
    requires
        t.trinn == Trinn::Put,
    ensures
        ({
            let s = neste(o, t, Hendelse::Sendt { avbrutt, status }).1;
            let tatt = status matches Some(kode) && 200 <= kode <= 299;
            &&& avbrutt <==> s.handling == Handling::Avbestill
            &&& !avbrutt && status is None <==> s.handling == Handling::Feilet(Feil::Ytre)
            &&& !avbrutt && status is Some && !tatt ==> s.handling == Handling::Feilet(
                Feil::Lageret(status->0),
            )
            &&& !avbrutt && tatt && t.lag_proxy <==> s.handling == Handling::LagProxy
            &&& !avbrutt && tatt && !t.lag_proxy && o.video <==> s.handling == Handling::LagBilder
            &&& !avbrutt && tatt && !t.lag_proxy && !o.video <==> s.handling == Handling::Fullfor
        }),
{
}

/// What is remembered of the version for playback when the upload is completed is what came
/// of making it, and nothing where none was to be made.
pub proof fn proxyen_folger_med(o: Oppgave, t: Opp, proxy: Option<u64>)
    requires
        t.trinn == Trinn::Proxy,
    ensures
        ({
            let (u, s) = neste(o, t, Hendelse::Proxy(proxy));
            &&& u.proxy == proxy
            &&& o.video <==> s.handling == Handling::LagBilder
            &&& !o.video <==> s.handling == Handling::Fullfor
            &&& u.trinn == Trinn::Bilder ==> neste(o, u, Hendelse::Gjort).0.proxy == proxy
                && neste(o, u, Hendelse::Gjort).1.handling == Handling::Fullfor
        }),
{
}

/// The last report of an upload says whether the library had the file already, and that all
/// of it is there; without the portal's word there is no such report.
pub proof fn siste_rapport(o: Oppgave, t: Opp, ok: bool, allerede: bool)
    requires
        t.trinn == Trinn::Fullfor,
    ensures
        ({
            let s = neste(o, t, Hendelse::Fullfort { ok, allerede }).1;
            &&& ok <==> s.handling == Handling::Ferdig
            &&& ok ==> (s.melding matches Some(m) && m.hentet == o.bytes && m.total == o.bytes && (
            m.status == Status::Hoppet <==> allerede) && (m.status == Status::Ferdig <==> !allerede))
            &&& !ok ==> s.handling == Handling::Feilet(Feil::Svar) && s.melding is None
        }),
{
}

/// An upload begins with the checksum, and goes on with an address only where the portal gave
/// one.
pub proof fn adressen_forst(o: Oppgave, t: Opp, ok: bool, lag_proxy: bool)
    requires
        t.trinn == Trinn::Presign,
    ensures
        forste_steg(o).handling == Handling::BeregnSum,
        ({
            let (u, s) = neste(o, t, Hendelse::Presignert { ok, lag_proxy });
            &&& ok <==> s.handling == Handling::Apne
            &&& !ok <==> s.handling == Handling::Feilet(Feil::Svar)
            &&& ok ==> u.lag_proxy == lag_proxy
            &&& ok ==> neste(o, u, Hendelse::Gjort).1.handling == Handling::Send
        }),
{
}

/// Whatever comes of what the application is told to do, the upload can take it: no course of
/// events gets stuck before it is over.
pub proof fn hvert_svar_kan_tas(o: Oppgave, hs: Seq<Hendelse>, h: Hendelse)
    requires
        mulig_lop(o, hs),
        match kjort(o, hs).1.handling {
            Handling::BeregnSum => h is Gjort,
            Handling::Presign => h is Presignert || h is Ytre,
            Handling::Apne => h is Gjort || h is Ytre,
            Handling::Send => h is Sendt,
            Handling::Avbestill => h is Gjort,
            Handling::SendDeler => h is Delt,
            Handling::LagProxy => h is Proxy,
            Handling::LagBilder => h is Gjort,
            Handling::Fullfor => h is Fullfort || h is Ytre,
            Handling::Ferdig => false,
            Handling::Feilet(_) => false,
        },
    ensures
        mulig(kjort(o, hs).0, h),
{
    if hs.len() > 0 {
        let t = kjort(o, hs.drop_last()).0;
        assert(kjort(o, hs) == neste(o, t, hs.last()));
    }
}

/// What becomes of a file that was sent in parts: it goes on as one that was sent in one
/// piece, or the words of what is wrong are those of the parts.
pub proof fn delene_er_fila_i_lageret(o: Oppgave, t: Opp, ok: bool, lag_proxy: bool)
    requires
        t.trinn == Trinn::Deler,
    ensures
        ({
            let (u, s) = neste(o, t, Hendelse::Delt { ok, lag_proxy });
            &&& !ok <==> s.handling == Handling::Feilet(Feil::Svar)
            &&& ok && lag_proxy <==> s.handling == Handling::LagProxy
            &&& ok && !lag_proxy && o.video <==> s.handling == Handling::LagBilder
            &&& ok && !lag_proxy && !o.video <==> s.handling == Handling::Fullfor
            &&& ok && !lag_proxy ==> u.proxy is None
        }),
{
}

/// What is reported on the way: an upload is connecting before it has an address, the making
/// of the version for playback and the completing are reported with all bytes sent, and for a
/// video its pictures are too.
pub proof fn rapportene_paa_veien(o: Oppgave, t: Opp, h: Hendelse)
    requires
        mulig(t, h),
    ensures
        ({
            let s = neste(o, t, h).1;
            let alt = |st: Status| Some(Melding { hentet: o.bytes, total: o.bytes, status: st });
            &&& s.handling == Handling::Presign ==> s.melding == Some(
                Melding { hentet: 0, total: o.bytes, status: Status::Kobler },
            )
            &&& s.handling == Handling::LagProxy ==> s.melding == alt(Status::Proxy) && s.og is None
            &&& s.handling == Handling::LagBilder ==> s.melding == alt(Status::Fullfor) && s.og
                == alt(Status::Thumbs)
            &&& s.handling == Handling::Fullfor && t.trinn != Trinn::Bilder ==> s.melding == alt(
                Status::Fullfor,
            ) && s.og is None
            &&& s.handling == Handling::Fullfor && t.trinn == Trinn::Bilder ==> s.melding is None
            &&& s.handling is Feilet ==> s.melding is None
        }),
{
}

} // verus!
