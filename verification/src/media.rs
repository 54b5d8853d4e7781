//! What kind of file a name stands for, what ffmpeg says of a clip, and the arguments
//! that ffmpeg is run with.
use crate::tekst::{
    blankt, desimal, desimaler, finn, finn_siste, forste_sted, forste_sted_er_forst, har_prefiks,
    har_suffiks, inneholder, inneholder_tekst, lik, siffer, siste_sted, siste_sted_er_der_det_staar,
    siste_sted_er_sist, slutter_med,
    smaa, splitt, splittes_ved_skillet, splittet, splittet_uten_skiller, starter_med, tegn,
    tegnet_finnes_der_det_staar, tekster, til_smaa, trim, trimmet, uten_skille_ett_stykke,
    utsnitt, valgfri,
};
use vstd::prelude::*;
use vstd::string::*;

verus! {

/// What follows the last full stop of a name, in lower case; the whole name where it
/// has none.
pub open spec fn filtype(navn: Seq<char>) -> Seq<char> {
    match siste_sted(navn, '.') {
        Some(i) => smaa(navn.skip(i + 1)),
        None => smaa(navn),
    }
}

/// The media type of a file type.
pub open spec fn mime_av_type(e: Seq<char>) -> Seq<char> {
    if e == "jpg"@ || e == "jpeg"@ {
        "image/jpeg"@
    } else if e == "png"@ {
        "image/png"@
    } else if e == "webp"@ {
        "image/webp"@
    } else if e == "gif"@ {
        "image/gif"@
    } else if e == "heic"@ {
        "image/heic"@
    } else if e == "tif"@ || e == "tiff"@ {
        "image/tiff"@
    } else if e == "dng"@ {
        "image/x-adobe-dng"@
    } else if e == "arw"@ {
        "image/x-sony-arw"@
    } else if e == "cr2"@ {
        "image/x-canon-cr2"@
    } else if e == "cr3"@ {
        "image/x-canon-cr3"@
    } else if e == "nef"@ {
        "image/x-nikon-nef"@
    } else if e == "raf"@ {
        "image/x-fuji-raf"@
    } else if e == "mp4"@ {
        "video/mp4"@
    } else if e == "mov"@ {
        "video/quicktime"@
    } else if e == "mxf"@ {
        "application/mxf"@
    } else if e == "pdf"@ {
        "application/pdf"@
    } else {
        "application/octet-stream"@
    }
}

/// The media type of a file by its name.
pub open spec fn mime(navn: Seq<char>) -> Seq<char> {
    mime_av_type(filtype(navn))
}

/// The media type of a file by its name.
pub fn mime_fra(navn: &str) -> (r: &'static str)
    ensures
        r@ == mime(navn@),
{
    let v = tegn(navn);
    let n: usize = v.len();
    let hale = match finn_siste(&v, '.') {
        Some(i) => {
            assert(v@.subrange(i + 1, v@.len() as int) =~= v@.skip(i + 1));
            utsnitt(&v, i + 1, n)
        },
        None => navn.to_owned(),
    };
    let liten = til_smaa(hale.as_str());
    let e = liten.as_str();
    if lik(e, "jpg") || lik(e, "jpeg") {
        "image/jpeg"
    } else if lik(e, "png") {
        "image/png"
    } else if lik(e, "webp") {
        "image/webp"
    } else if lik(e, "gif") {
        "image/gif"
    } else if lik(e, "heic") {
        "image/heic"
    } else if lik(e, "tif") || lik(e, "tiff") {
        "image/tiff"
    } else if lik(e, "dng") {
        "image/x-adobe-dng"
    } else if lik(e, "arw") {
        "image/x-sony-arw"
    } else if lik(e, "cr2") {
        "image/x-canon-cr2"
    } else if lik(e, "cr3") {
        "image/x-canon-cr3"
    } else if lik(e, "nef") {
        "image/x-nikon-nef"
    } else if lik(e, "raf") {
        "image/x-fuji-raf"
    } else if lik(e, "mp4") {
        "video/mp4"
    } else if lik(e, "mov") {
        "video/quicktime"
    } else if lik(e, "mxf") {
        "application/mxf"
    } else if lik(e, "pdf") {
        "application/pdf"
    } else {
        "application/octet-stream"
    }
}

/// Whether a file is a video by its name: a video media type, or MXF.
pub open spec fn videonavn(navn: Seq<char>) -> bool {
    har_prefiks(mime(navn), "video/"@) || har_suffiks(smaa(navn), ".mxf"@)
}

/// Whether a file is a video by its name.
pub fn er_video(navn: &str) -> (r: bool)
    ensures
        r == videonavn(navn@),
{
    starter_med(mime_fra(navn), "video/") || slutter_med(til_smaa(navn).as_str(), ".mxf")
}

/// The number that a run of decimal digits spells; nothing where another character
/// stands among them.
pub open spec fn sifferverdi(s: Seq<char>) -> Option<nat>
    decreases s.len(),
{
    if s.len() == 0 {
        Some(0)
    } else {
        match sifferverdi(s.drop_last()) {
            Some(v) => if '0' <= s.last() && s.last() <= '9' {
                Some(10 * v + (s.last() as nat - 48) as nat)
            } else {
                None
            },
            None => None,
        }
    }
}

/// The 32-bit number that a text spells, with or without a plus sign in front.
pub open spec fn tall(s: Seq<char>) -> Option<u32> {
    let t = if s.len() > 0 && s[0] == '+' {
        s.drop_first()
    } else {
        s
    };
    match sifferverdi(t) {
        Some(v) => if t.len() > 0 && v <= u32::MAX {
            Some(v as u32)
        } else {
            None
        },
        None => None,
    }
}

/// Reads a 32-bit number.
pub fn les_tall(s: &str) -> (r: Option<u32>)
    ensures
        r == tall(s@),
{
    let v = tegn(s);
    let fra: usize = if v.len() > 0 && v[0] == '+' {
        1
    } else {
        0
    };
    let ghost t = s@.skip(fra as int);
    assert(fra == 1 ==> t =~= s@.drop_first());
    assert(fra == 0 ==> t =~= s@);
    if v.len() == fra {
        return None;
    }
    let tak: u64 = 0x1_0000_0000;
    let mut ok = true;
    let mut sum: u64 = 0;
    let mut i: usize = fra;
    while i < v.len()
        invariant
            v@ == s@,
            fra <= i <= v@.len(),
            t == s@.skip(fra as int),
            tak == 0x1_0000_0000,
            sum <= tak,
            ok == (sifferverdi(t.take(i - fra)) is Some),
            ok ==> {
                let x = sifferverdi(t.take(i - fra))->0;
                sum == if x < tak {
                    x
                } else {
                    tak as nat
                }
            },
        decreases v@.len() - i,
    {
        let c = v[i];
        assert(t.take(i + 1 - fra).drop_last() =~= t.take(i - fra));
        assert(t.take(i + 1 - fra).last() == c);
        if '0' <= c && c <= '9' {
            let ny: u64 = 10 * sum + ((c as u32) - 48) as u64;
            sum = if ny < tak {
                ny
            } else {
                tak
            };
        } else {
            ok = false;
        }
        i += 1;
    }
    assert(t.take(i - fra) =~= t);
    if ok && sum < tak {
        Some(sum as u32)
    } else {
        None
    }
}

/// A line without the carriage return at its end.
pub open spec fn uten_retur(s: Seq<char>) -> Seq<char> {
    if s.len() > 0 && s.last() == '\r' {
        s.drop_last()
    } else {
        s
    }
}

/// The lines of a text. Each ends in a line feed, or in a carriage return and a line
/// feed; the last may lack it.
pub open spec fn linjer(s: Seq<char>) -> Seq<Seq<char>> {
    let d = splittet(s, seq!['\n']);
    let hele = d.drop_last().map_values(|l: Seq<char>| uten_retur(l));
    if d.last().len() > 0 {
        hele.push(d.last())
    } else {
        hele
    }
}

/// The size that a word of the form `WxH` gives: both at least 16.
pub open spec fn maal_av_ord(ord: Seq<char>) -> Option<(u32, u32)> {
    match forste_sted(ord, seq!['x']) {
        Some(i) => match (tall(ord.take(i)), tall(ord.skip(i + 1))) {
            (Some(b), Some(h)) => if b >= 16 && h >= 16 {
                Some((b, h))
            } else {
                None
            },
            _ => None,
        },
        None => None,
    }
}

/// The first size among the words.
pub open spec fn forste_maal(ord: Seq<Seq<char>>) -> Option<(u32, u32)>
    decreases ord.len(),
{
    if ord.len() == 0 {
        None
    } else {
        match forste_maal(ord.drop_last()) {
            Some(m) => Some(m),
            None => maal_av_ord(ord.last()),
        }
    }
}

/// The first size on a line that describes a video stream.
pub open spec fn forste_videomaal(l: Seq<Seq<char>>) -> Option<(u32, u32)>
    decreases l.len(),
{
    if l.len() == 0 {
        None
    } else {
        match forste_videomaal(l.drop_last()) {
            Some(m) => Some(m),
            None => if inneholder_tekst(l.last(), "Video:"@) {
                forste_maal(splittet(l.last(), seq![' ', ',']))
            } else {
                None
            },
        }
    }
}

fn les_maal(ord: &str) -> (r: Option<(u32, u32)>)
    ensures
        r == maal_av_ord(ord@),
{
    let v = tegn(ord);
    let x: Vec<char> = vec!['x'];
    assert(x@ =~= seq!['x']);
    match finn(&v, &x) {
        Some(i) => {
            assert(v@.subrange(0, i as int) =~= ord@.take(i as int));
            assert(v@.subrange(i + 1, v@.len() as int) =~= ord@.skip(i + 1));
            let foran = utsnitt(&v, 0, i);
            let bak = utsnitt(&v, i + 1, v.len());
            match (les_tall(foran.as_str()), les_tall(bak.as_str())) {
                (Some(b), Some(h)) => if b >= 16 && h >= 16 {
                    Some((b, h))
                } else {
                    None
                },
                _ => None,
            }
        },
        None => None,
    }
}

fn maal_paa_linje(linje: &str) -> (r: Option<(u32, u32)>)
    ensures
        r == forste_maal(splittet(linje@, seq![' ', ','])),
{
    let skille: [char; 2] = [' ', ','];
    assert(skille@ =~= seq![' ', ',']);
    let ord = splitt(linje, &skille);
    let ghost alle = tekster(ord@);
    let mut funnet: Option<(u32, u32)> = None;
    let mut i: usize = 0;
    while i < ord.len()
        invariant
            i <= ord@.len(),
            alle == tekster(ord@),
            funnet == forste_maal(alle.take(i as int)),
        decreases ord@.len() - i,
    {
        assert(alle.take(i + 1).drop_last() =~= alle.take(i as int));
        assert(alle.take(i + 1).last() == ord@[i as int]@);
        if funnet.is_none() {
            funnet = les_maal(ord[i].as_str());
        }
        i += 1;
    }
    assert(alle.take(i as int) =~= alle);
    funnet
}

/// Splits a text into its lines.
pub fn del_i_linjer(s: &str) -> (r: Vec<String>)
    ensures
        tekster(r@) == linjer(s@),
{
    let skille: [char; 1] = ['\n'];
    assert(skille@ =~= seq!['\n']);
    let d = splitt(s, &skille);
    let ghost alle = tekster(d@);
    let mut ut: Vec<String> = Vec::new();
    proof {
        crate::tekst::splittet_uten_skiller(s@, seq!['\n']);
        assert(d@.len() == alle.len());
    }
    let siste: usize = d.len() - 1;
    let mut i: usize = 0;
    while i < siste
        invariant
            i <= siste,
            siste + 1 == d@.len(),
            alle == tekster(d@),
            tekster(ut@) == alle.take(i as int).map_values(|l: Seq<char>| uten_retur(l)),
        decreases siste - i,
    {
        let v = tegn(d[i].as_str());
        let n: usize = if v.len() > 0 && v[v.len() - 1] == '\r' {
            v.len() - 1
        } else {
            v.len()
        };
        let ghost foer = ut@;
        ut.push(utsnitt(&v, 0, n));
        assert(v@.subrange(0, n as int) =~= uten_retur(alle[i as int]));
        assert(tekster(ut@) =~= tekster(foer).push(uten_retur(alle[i as int])));
        i += 1;
        assert(tekster(ut@) =~= alle.take(i as int).map_values(|l: Seq<char>| uten_retur(l)));
    }
    assert(alle.take(siste as int) =~= alle.drop_last());
    if !d[siste].as_str().is_empty() {
        let ghost foer = ut@;
        ut.push(d[siste].clone());
        assert(tekster(ut@) =~= tekster(foer).push(alle.last()));
    }
    ut
}

/// The width and height of the video stream that ffmpeg describes; zero and zero where
/// it names none.
pub open spec fn maal_i(stderr: Seq<char>) -> (u32, u32) {
    match forste_videomaal(linjer(stderr)) {
        Some(m) => m,
        None => (0u32, 0u32),
    }
}

/// Finds the width and height of the video stream that ffmpeg describes.
pub fn parse_dim(stderr: &str) -> (r: (u32, u32))
    ensures
        r == maal_i(stderr@),
{
    let l = del_i_linjer(stderr);
    let ghost alle = tekster(l@);
    let mut funnet: Option<(u32, u32)> = None;
    let mut i: usize = 0;
    while i < l.len()
        invariant
            i <= l@.len(),
            alle == tekster(l@),
            funnet == forste_videomaal(alle.take(i as int)),
        decreases l@.len() - i,
    {
        assert(alle.take(i + 1).drop_last() =~= alle.take(i as int));
        assert(alle.take(i + 1).last() == l@[i as int]@);
        if funnet.is_none() && inneholder(l[i].as_str(), "Video:") {
            funnet = maal_paa_linje(l[i].as_str());
        }
        i += 1;
    }
    assert(alle.take(i as int) =~= alle);
    match funnet {
        Some(m) => m,
        None => (0, 0),
    }
}

/// The words for the length of a clip in what ffmpeg says of it: hours, minutes and
/// seconds, as they stand between colons; nothing where ffmpeg gives none.
pub open spec fn varighetsord(stderr: Seq<char>) -> Option<Seq<Seq<char>>> {
    match forste_sted(stderr, "Duration: "@) {
        Some(i) => Some(
            splittet(
                trimmet(splittet(stderr.skip(i + 10), seq![','])[0]),
                seq![':'],
            ).map_values(|s: Seq<char>| trimmet(s)),
        ),
        None => None,
    }
}

/// Finds the words for the length of a clip in what ffmpeg says of it.
pub fn parse_varighet(stderr: &str) -> (r: Option<Vec<String>>)
    ensures
        match r {
            Some(v) => varighetsord(stderr@) == Some(tekster(v@)),
            None => varighetsord(stderr@) is None,
        },
{
    let v = tegn(stderr);
    proof {
        reveal_strlit("Duration: ");
    }
    match finn(&v, &tegn("Duration: ")) {
        None => None,
        Some(i) => {
            assert("Duration: "@.len() == 10);
            let n: usize = v.len();
            let rest = utsnitt(&v, i + 10, n);
            assert(rest@ =~= stderr@.skip(i + 10));
            let komma: [char; 1] = [','];
            let kolon: [char; 1] = [':'];
            assert(komma@ =~= seq![',']);
            assert(kolon@ =~= seq![':']);
            let stykker = splitt(rest.as_str(), &komma);
            proof {
                splittet_uten_skiller(rest@, komma@);
                assert(tekster(stykker@)[0] == stykker@[0]@);
            }
            let tid = trim(stykker[0].as_str());
            let deler = splitt(tid.as_str(), &kolon);
            let ghost alle = tekster(deler@);
            let mut ut: Vec<String> = Vec::new();
            let mut k: usize = 0;
            while k < deler.len()
                invariant
                    k <= deler@.len(),
                    alle == tekster(deler@),
                    ut@.len() == k,
                    forall|q: int| 0 <= q < k ==> (#[trigger] ut@[q])@ == trimmet(alle[q]),
                decreases deler@.len() - k,
            {
                ut.push(trim(deler[k].as_str()));
                k += 1;
            }
            assert(tekster(ut@) =~= alle.map_values(|s: Seq<char>| trimmet(s)));
            Some(ut)
        },
    }
}

/// How many pictures there are to scrub through, for a clip of this many seconds: one for
/// each, but at least 12 and at most 48.
pub open spec fn antall_bilder(sekunder: u32) -> u32 {
    if sekunder < 12 {
        12
    } else if sekunder > 48 {
        48
    } else {
        sekunder
    }
}

/// Counts the pictures to scrub through.
pub fn sprite_antall(sekunder: u32) -> (r: u32)
    ensures
        r == antall_bilder(sekunder),
{
    if sekunder < 12 {
        12
    } else if sekunder > 48 {
        48
    } else {
        sekunder
    }
}

/// The contents of string slices, in order.
pub open spec fn ordene_i(v: Seq<&str>) -> Seq<Seq<char>> {
    v.map_values(|s: &str| s@)
}

/// Copies words.
fn kopier(v: &[&str]) -> (r: Vec<String>)
    ensures
        tekster(r@) == ordene_i(v@),
{
    let mut ut: Vec<String> = Vec::new();
    let mut i: usize = 0;
    while i < v.len()
        invariant
            i <= v@.len(),
            ut@.len() == i,
            forall|k: int| 0 <= k < i ==> (#[trigger] ut@[k])@ == v@[k]@,
        decreases v@.len() - i,
    {
        ut.push(v[i].to_owned());
        i += 1;
    }
    assert(tekster(ut@) =~= ordene_i(v@));
    ut
}

/// The arguments with which ffmpeg tells what a clip is.
pub fn info_args(sti: &str) -> (r: Vec<String>)
    ensures
        tekster(r@) == seq!["-hide_banner"@, "-i"@, sti@],
{
    let a: [&str; 3] = ["-hide_banner", "-i", sti];
    assert(ordene_i(a@) =~= seq!["-hide_banner"@, "-i"@, sti@]);
    kopier(&a)
}

/// The arguments with which ffmpeg makes the poster of a clip: the picture at the time
/// `naar`, at most 1280 wide.
pub fn poster_args(naar: &str, sti: &str, ut: &str) -> (r: Vec<String>)
    ensures
        tekster(r@) == seq![
            "-hide_banner"@,
            "-loglevel"@,
            "error"@,
            "-y"@,
            "-ss"@,
            naar@,
            "-i"@,
            sti@,
            "-frames:v"@,
            "1"@,
            "-vf"@,
            "scale='min(1280,iw)':-2"@,
            "-q:v"@,
            "4"@,
            ut@,
        ],
{
    let a: [&str; 15] = [
        "-hide_banner",
        "-loglevel",
        "error",
        "-y",
        "-ss",
        naar,
        "-i",
        sti,
        "-frames:v",
        "1",
        "-vf",
        "scale='min(1280,iw)':-2",
        "-q:v",
        "4",
        ut,
    ];
    assert(ordene_i(a@) =~= seq![
        "-hide_banner"@,
        "-loglevel"@,
        "error"@,
        "-y"@,
        "-ss"@,
        naar@,
        "-i"@,
        sti@,
        "-frames:v"@,
        "1"@,
        "-vf"@,
        "scale='min(1280,iw)':-2"@,
        "-q:v"@,
        "4"@,
        ut@,
    ]);
    kopier(&a)
}

/// The filter that lays `n` pictures of a clip side by side, 200 high, taken at the rate
/// `fps`.
pub fn sprite_filter(fps: &str, n: u32) -> (r: String)
    ensures
        r@ == "fps="@ + fps@ + ",scale=-2:200,tile="@ + desimaler(n as nat) + "x1"@,
{
    let mut ut = "fps=".to_owned();
    ut.append(fps);
    ut.append(",scale=-2:200,tile=");
    ut.append(desimal(n as u64).as_str());
    ut.append("x1");
    ut
}

/// The arguments with which ffmpeg makes the pictures to scrub through.
pub fn sprite_args(filter: &str, sti: &str, ut: &str) -> (r: Vec<String>)
    ensures
        tekster(r@) == seq![
            "-hide_banner"@,
            "-loglevel"@,
            "error"@,
            "-y"@,
            "-i"@,
            sti@,
            "-vf"@,
            filter@,
            "-frames:v"@,
            "1"@,
            "-q:v"@,
            "5"@,
            ut@,
        ],
{
    let a: [&str; 13] = [
        "-hide_banner",
        "-loglevel",
        "error",
        "-y",
        "-i",
        sti,
        "-vf",
        filter,
        "-frames:v",
        "1",
        "-q:v",
        "5",
        ut,
    ];
    assert(ordene_i(a@) =~= seq![
        "-hide_banner"@,
        "-loglevel"@,
        "error"@,
        "-y"@,
        "-i"@,
        sti@,
        "-vf"@,
        filter@,
        "-frames:v"@,
        "1"@,
        "-q:v"@,
        "5"@,
        ut@,
    ]);
    kopier(&a)
}

/// The name of the temporary file for a poster.
pub fn poster_navn(prosess: u32) -> (r: String)
    ensures
        r@ == "rawskap-poster-"@ + desimaler(prosess as nat) + ".jpg"@,
{
    let mut ut = "rawskap-poster-".to_owned();
    ut.append(desimal(prosess as u64).as_str());
    ut.append(".jpg");
    ut
}

/// The name of the temporary file for the pictures to scrub through.
pub fn sprite_navn(prosess: u32) -> (r: String)
    ensures
        r@ == "rawskap-sprite-"@ + desimaler(prosess as nat) + ".jpg"@,
{
    let mut ut = "rawskap-sprite-".to_owned();
    ut.append(desimal(prosess as u64).as_str());
    ut.append(".jpg");
    ut
}

/// The character for six bits in base64.
pub open spec fn base64_tegn(v: int) -> char {
    if v < 26 {
        (65 + v) as u8 as char
    } else if v < 52 {
        (71 + v) as u8 as char
    } else if v < 62 {
        (v - 4) as u8 as char
    } else if v == 62 {
        '+'
    } else {
        '/'
    }
}

/// Bytes in base64: four characters for each three bytes, the last four filled up with
/// equals signs.
pub open spec fn base64_av(b: Seq<u8>) -> Seq<char>
    decreases b.len(),
{
    if b.len() == 0 {
        Seq::empty()
    } else {
        let x = b[0] as int;
        let y = if b.len() > 1 {
            b[1] as int
        } else {
            0
        };
        let z = if b.len() > 2 {
            b[2] as int
        } else {
            0
        };
        seq![
            base64_tegn(x / 4),
            base64_tegn(x % 4 * 16 + y / 16),
            if b.len() > 1 {
                base64_tegn(y % 16 * 4 + z / 64)
            } else {
                '='
            },
            if b.len() > 2 {
                base64_tegn(z % 64)
            } else {
                '='
            },
        ] + if b.len() > 3 {
            base64_av(b.skip(3))
        } else {
            Seq::empty()
        }
    }
}

/// `base64::Engine::encode` with the engine `STANDARD`: the bytes in base64, with the
/// usual characters and filled up at the end.
#[verifier::external_body]
fn base64_kod(b: &Vec<u8>) -> (r: String)
    requires
        (b@.len() + 2) / 3 * 4 <= isize::MAX,
    ensures
        r@ == base64_av(b@),
{
    base64::Engine::encode(&base64::engine::general_purpose::STANDARD, b)
}

/// A picture as an address that holds the picture itself; nothing where the picture is too
/// small to be one.
pub fn bilde_url(jpg: &Vec<u8>) -> (r: Option<String>)
    requires
        (jpg@.len() + 2) / 3 * 4 <= isize::MAX,
    ensures
        valgfri(r) == if jpg@.len() > 1000 {
            Some("data:image/jpeg;base64,"@ + base64_av(jpg@))
        } else {
            None
        },
{
    if jpg.len() > 1000 {
        let mut ut = "data:image/jpeg;base64,".to_owned();
        ut.append(base64_kod(jpg).as_str());
        Some(ut)
    } else {
        None
    }
}

/// What was found out about a clip, besides how long it is.
#[derive(Debug)]
pub struct Bilder {
    pub bredde: u32,
    pub hoyde: u32,
    pub poster: Option<String>,
    pub sprite: Option<String>,
    /// How many pictures there are to scrub through; zero where there are none.
    pub frames: u32,
}

/// Whether a picture that ffmpeg has made is one.
pub open spec fn er_bilde(jpg: Option<Vec<u8>>) -> bool {
    jpg is Some && jpg->0@.len() > 1000
}

/// A picture that ffmpeg has made as an address that holds it.
pub open spec fn bilde_av(jpg: Option<Vec<u8>>) -> Option<Seq<char>> {
    if er_bilde(jpg) {
        Some("data:image/jpeg;base64,"@ + base64_av(jpg->0@))
    } else {
        None
    }
}

/// What was found out about a clip: from what ffmpeg said of it, the poster that it made,
/// and the `n` pictures to scrub through.
pub fn video_info(stderr: &str, poster: &Option<Vec<u8>>, sprite: &Option<Vec<u8>>, n: u32) -> (r:
    Bilder)
    requires
        poster is Some ==> (poster->0@.len() + 2) / 3 * 4 <= isize::MAX,
        sprite is Some ==> (sprite->0@.len() + 2) / 3 * 4 <= isize::MAX,
    ensures
        (r.bredde, r.hoyde) == maal_i(stderr@),
        valgfri(r.poster) == bilde_av(*poster),
        valgfri(r.sprite) == bilde_av(*sprite),
        r.frames == if er_bilde(*sprite) {
            n
        } else {
            0
        },
{
    let (bredde, hoyde) = parse_dim(stderr);
    let poster = match poster {
        Some(jpg) => bilde_url(jpg),
        None => None,
    };
    let sprite = match sprite {
        Some(jpg) => bilde_url(jpg),
        None => None,
    };
    let frames: u32 = if sprite.is_some() {
        n
    } else {
        0
    };
    Bilder { bredde, hoyde, poster, sprite, frames }
}

/// What was found out about a clip of so many whole seconds; none for a clip that is too
/// short to scrub through, or of which it is not known how long it is. There are pictures to
/// scrub through exactly where their number is given, and it is that for the seconds.
pub fn klippinfo(
    stderr: &str,
    poster: &Option<Vec<u8>>,
    sprite: &Option<Vec<u8>>,
    sekunder: Option<u32>,
) -> (r: Bilder)
    requires
        poster is Some ==> (poster->0@.len() + 2) / 3 * 4 <= isize::MAX,
        sprite is Some ==> (sprite->0@.len() + 2) / 3 * 4 <= isize::MAX,
    ensures
        (r.bredde, r.hoyde) == maal_i(stderr@),
        valgfri(r.poster) == bilde_av(*poster),
        valgfri(r.sprite) == if sekunder is Some {
            bilde_av(*sprite)
        } else {
            None
        },
        r.frames == if sekunder is Some && er_bilde(*sprite) {
            antall_bilder(sekunder->0)
        } else {
            0
        },
        r.sprite is Some <==> r.frames > 0,
        r.frames > 0 ==> sekunder is Some && 12 <= r.frames <= 48,
{
    match sekunder {
        Some(sek) => video_info(stderr, poster, sprite, sprite_antall(sek)),
        None => video_info(stderr, poster, &None, 0),
    }
}

/// A number is read as it is written: the decimal form of a number, also with zeros in front
/// of it, is read as that number.
pub proof fn tall_leses_som_skrevet(n: nat, nuller: Seq<char>)
    requires
        forall|i: int| 0 <= i < nuller.len() ==> #[trigger] nuller[i] == '0',
    ensures
        sifferverdi(nuller + desimaler(n)) == Some(n),
        n <= u32::MAX ==> tall(nuller + desimaler(n)) == Some(n as u32),
        n <= u32::MAX ==> tall(seq!['+'] + nuller + desimaler(n)) == Some(n as u32),
    decreases n,
{
    let s = nuller + desimaler(n);
    if n < 10 {
        assert(s.drop_last() =~= nuller);
        bare_nuller(nuller);
    } else {
        tall_leses_som_skrevet(n / 10, nuller);
        assert(s.drop_last() =~= nuller + desimaler(n / 10));
        assert(s.last() == siffer(n % 10));
    }
    assert(s.len() > 0);
    if s[0] == '+' {
        sifferverdi_er_sifre(s);
        assert('0' <= s[0] <= '9');
    }
    let t = seq!['+'] + nuller + desimaler(n);
    assert(t.drop_first() =~= s);
}

proof fn bare_nuller(s: Seq<char>)
    requires
        forall|i: int| 0 <= i < s.len() ==> #[trigger] s[i] == '0',
    ensures
        sifferverdi(s) == Some(0nat),
    decreases s.len(),
{
    if s.len() > 0 {
        let d = s.drop_last();
        assert forall|i: int| 0 <= i < d.len() implies #[trigger] d[i] == '0' by {
            assert(d[i] == s[i]);
        }
        bare_nuller(d);
        assert(s[s.len() - 1] == '0');
    }
}

/// What is read as a number holds nothing but digits, and what holds nothing but digits is.
pub proof fn sifferverdi_er_sifre(s: Seq<char>)
    ensures
        sifferverdi(s) is Some <==> forall|i: int| 0 <= i < s.len() ==> '0' <= #[trigger] s[i]
            <= '9',
    decreases s.len(),
{
    if s.len() > 0 {
        let d = s.drop_last();
        sifferverdi_er_sifre(d);
        if sifferverdi(s) is Some {
            assert forall|i: int| 0 <= i < s.len() implies '0' <= #[trigger] s[i] <= '9' by {
                if i < d.len() {
                    assert('0' <= d[i] <= '9');
                }
            }
        }
        if forall|i: int| 0 <= i < s.len() ==> '0' <= #[trigger] s[i] <= '9' {
            assert forall|i: int| 0 <= i < d.len() implies '0' <= #[trigger] d[i] <= '9' by {
                assert('0' <= s[i] <= '9');
            }
            assert('0' <= s[s.len() - 1] <= '9');
        }
    }
}

/// The decimal form of a number holds nothing but digits.
pub proof fn desimaler_er_bare_sifre(n: nat)
    ensures
        forall|i: int| 0 <= i < desimaler(n).len() ==> '0' <= #[trigger] desimaler(n)[i] <= '9',
{
    tall_leses_som_skrevet(n, Seq::empty());
    assert(Seq::<char>::empty() + desimaler(n) =~= desimaler(n));
    sifferverdi_er_sifre(desimaler(n));
}

/// A word that is a width, the letter x and a height is read as that width and that height,
/// where both are large enough to be those of a picture, and else as no size.
pub proof fn maal_leses_som_skrevet(b: u32, h: u32)
    ensures
        b >= 16 && h >= 16 ==> maal_av_ord(
            desimaler(b as nat).push('x') + desimaler(h as nat),
        ) == Some((b, h)),
        b < 16 || h < 16 ==> maal_av_ord(
            desimaler(b as nat).push('x') + desimaler(h as nat),
        ) is None,
{
    let x = desimaler(b as nat);
    let y = desimaler(h as nat);
    let ord = x.push('x') + y;
    desimaler_er_bare_sifre(b as nat);
    if x.contains('x') {
        let i = choose|i: int| 0 <= i < x.len() && x[i] == 'x';
        assert('0' <= x[i] <= '9');
    }
    tegnet_finnes_der_det_staar(x, 'x', y);
    assert(ord.take(x.len() as int) =~= x);
    assert(ord.skip(x.len() as int + 1) =~= y);
    tall_leses_som_skrevet(b as nat, Seq::empty());
    tall_leses_som_skrevet(h as nat, Seq::empty());
    assert(Seq::<char>::empty() + x =~= x);
    assert(Seq::<char>::empty() + y =~= y);
}

/// A word that is read as a size is a number, the letter x and a number, and the numbers are
/// the width and the height, both at least 16.
pub proof fn maal_staar_i_ordet(ord: Seq<char>)
    ensures
        maal_av_ord(ord) matches Some(m) ==> {
            &&& m.0 >= 16 && m.1 >= 16
            &&& exists|i: int|
                0 <= i < ord.len() && #[trigger] ord[i] == 'x' && tall(ord.take(i)) == Some(m.0)
                    && tall(ord.skip(i + 1)) == Some(m.1)
        },
{
    forste_sted_er_forst(ord, seq!['x']);
    if maal_av_ord(ord) is Some {
        let i = forste_sted(ord, seq!['x'])->0;
        assert(ord.subrange(i, i + 1)[0] == ord[i]);
        assert(ord[i] == 'x');
    }
}

proof fn forste_maal_i_rekkefolge(a: Seq<Seq<char>>, b: Seq<Seq<char>>)
    ensures
        forste_maal(a + b) == match forste_maal(a) {
            Some(m) => Some(m),
            None => forste_maal(b),
        },
    decreases b.len(),
{
    if b.len() == 0 {
        assert(a + b =~= a);
    } else {
        forste_maal_i_rekkefolge(a, b.drop_last());
        assert((a + b).drop_last() =~= a + b.drop_last());
    }
}

proof fn forste_videomaal_i_rekkefolge(a: Seq<Seq<char>>, b: Seq<Seq<char>>)
    ensures
        forste_videomaal(a + b) == match forste_videomaal(a) {
            Some(m) => Some(m),
            None => forste_videomaal(b),
        },
    decreases b.len(),
{
    if b.len() == 0 {
        assert(a + b =~= a);
    } else {
        forste_videomaal_i_rekkefolge(a, b.drop_last());
        assert((a + b).drop_last() =~= a + b.drop_last());
    }
}

/// A line feed ends a line, a carriage return before it belongs to the end, and the last
/// line may lack both.
pub proof fn linje_for_linje(l: Seq<char>, rest: Seq<char>)
    requires
        !l.contains('\n'),
    ensures
        linjer(l) == if l.len() == 0 {
            Seq::<Seq<char>>::empty()
        } else {
            seq![l]
        },
        l.len() == 0 || l.last() != '\r' ==> linjer(l.push('\n') + rest) == seq![l] + linjer(rest),
        linjer(l.push('\r').push('\n') + rest) == seq![l] + linjer(rest),
{
    en_linje_og_resten(l, rest);
    let m = l.push('\r');
    if m.contains('\n') {
        let i = choose|i: int| 0 <= i < m.len() && m[i] == '\n';
        assert(l[i] == '\n');
    }
    en_linje_og_resten(m, rest);
    assert(m.drop_last() =~= l);
    let skille = seq!['\n'];
    assert forall|i: int| 0 <= i < l.len() implies !skille.contains(#[trigger] l[i]) by {
        if skille.contains(l[i]) {
            assert(l.contains('\n'));
        }
    }
    uten_skille_ett_stykke(l, skille);
    let d = splittet(l, skille);
    assert(d.drop_last() =~= Seq::<Seq<char>>::empty());
    assert(d.drop_last().map_values(|l: Seq<char>| uten_retur(l)) =~= Seq::<Seq<char>>::empty());
    assert(linjer(l) =~= if l.len() == 0 {
        Seq::<Seq<char>>::empty()
    } else {
        seq![l]
    });
}

proof fn en_linje_og_resten(l: Seq<char>, rest: Seq<char>)
    requires
        !l.contains('\n'),
    ensures
        linjer(l.push('\n') + rest) == seq![uten_retur(l)] + linjer(rest),
{
    let skille = seq!['\n'];
    assert(skille[0] == '\n');
    assert forall|i: int| 0 <= i < l.len() implies !skille.contains(#[trigger] l[i]) by {
        if skille.contains(l[i]) {
            assert(l.contains('\n'));
        }
    }
    uten_skille_ett_stykke(l, skille);
    splittes_ved_skillet(l, '\n', rest, skille);
    splittet_uten_skiller(rest, skille);
    let d = splittet(rest, skille);
    let alle = splittet(l.push('\n') + rest, skille);
    assert(alle =~= seq![l] + d);
    assert(alle.last() == d.last());
    let f = |l: Seq<char>| uten_retur(l);
    assert(alle.drop_last() =~= seq![l] + d.drop_last());
    assert(alle.drop_last().map_values(f) =~= seq![uten_retur(l)] + d.drop_last().map_values(f));
    assert(linjer(l.push('\n') + rest) =~= seq![uten_retur(l)] + linjer(rest));
}

/// The size of a clip is found as ffmpeg gives it, the width first: on the first line that
/// speaks of a video and names a size, in the first word that is one. `foer` is what comes
/// before that line, `a` and `b` are what stands before and after the word on it, and
/// `etter` is what follows the line.
pub proof fn klippets_maal_finnes(
    foer: Seq<char>,
    a: Seq<char>,
    bredde: u32,
    hoyde: u32,
    b: Seq<char>,
    etter: Seq<char>,
)
    requires
        bredde >= 16,
        hoyde >= 16,
        foer.len() > 0 ==> foer.last() == '\n',
        forste_videomaal(linjer(foer)) is None,
        !a.contains('\n') && !b.contains('\n'),
        a.len() > 0 ==> a.last() == ' ' || a.last() == ',',
        b.len() > 0 ==> (b[0] == ' ' || b[0] == ',') && b.last() != '\r',
        forste_maal(splittet(a, seq![' ', ','])) is None,
        inneholder_tekst(
            a + desimaler(bredde as nat) + "x"@ + desimaler(hoyde as nat) + b,
            "Video:"@,
        ),
    ensures
        maal_i(
            foer + (a + desimaler(bredde as nat) + "x"@ + desimaler(hoyde as nat) + b).push('\n')
                + etter,
        ) == (bredde, hoyde),
{
    reveal_strlit("x");
    let w = desimaler(bredde as nat);
    let h = desimaler(hoyde as nat);
    let ord = w.push('x') + h;
    let linje = a + w + "x"@ + h + b;
    assert(linje =~= a + ord + b);
    ordet_paa_linja(a, bredde, hoyde, b);
    desimaler_er_bare_sifre(bredde as nat);
    desimaler_er_bare_sifre(hoyde as nat);
    if linje.contains('\n') {
        let k = choose|k: int| 0 <= k < linje.len() && linje[k] == '\n';
        if k < a.len() {
            assert(a[k] == '\n');
        } else if k >= a.len() + ord.len() {
            assert(b[k - a.len() - ord.len()] == '\n');
        } else if k - a.len() < w.len() {
            assert(w[k - a.len()] == '\n');
        } else if k - a.len() > w.len() {
            assert(h[k - a.len() - w.len() - 1] == '\n');
        }
    }
    tall_leses_som_skrevet(hoyde as nat, Seq::empty());
    assert(h.len() > 0);
    assert(linje.last() != '\r') by {
        if b.len() == 0 {
            assert(linje.last() == h[h.len() - 1]);
        }
    }
    linje_for_linje(linje, etter);
    hele_linjer_foer(foer, linje.push('\n') + etter);
    let alt = foer + linje.push('\n') + etter;
    assert(alt =~= foer + (linje.push('\n') + etter));
    forste_videomaal_i_rekkefolge(linjer(foer), seq![linje] + linjer(etter));
    forste_videomaal_i_rekkefolge(seq![linje], linjer(etter));
    let en = seq![linje];
    assert(en.drop_last() =~= Seq::<Seq<char>>::empty());
    assert(forste_videomaal(en.drop_last()) is None && en.last() == linje);
    assert(forste_videomaal(en) == Some((bredde, hoyde)));
}

proof fn hele_linjer_foer(foer: Seq<char>, rest: Seq<char>)
    requires
        foer.len() > 0 ==> foer.last() == '\n',
    ensures
        linjer(foer + rest) == linjer(foer) + linjer(rest),
{
    let skille = seq!['\n'];
    assert(skille[0] == '\n');
    let f = |l: Seq<char>| uten_retur(l);
    if foer.len() == 0 {
        assert(foer + rest =~= rest);
        let d = splittet(foer, skille);
        assert(d.drop_last() =~= Seq::<Seq<char>>::empty());
        assert(linjer(foer) =~= Seq::<Seq<char>>::empty());
        assert(linjer(foer) + linjer(rest) =~= linjer(rest));
    } else {
        let g = foer.drop_last();
        let tom = Seq::<char>::empty();
        assert(foer =~= g.push('\n'));
        assert(foer =~= g.push('\n') + tom);
        splittes_ved_skillet(g, '\n', rest, skille);
        splittes_ved_skillet(g, '\n', tom, skille);
        splittet_uten_skiller(rest, skille);
        let x = splittet(g, skille);
        let y = splittet(rest, skille);
        assert(splittet(foer, skille) =~= x.push(tom));
        assert(splittet(foer, skille).drop_last() =~= x);
        assert((x + y).drop_last() =~= x + y.drop_last());
        assert((x + y).last() == y.last());
        assert((x + y.drop_last()).map_values(f) =~= x.map_values(f) + y.drop_last().map_values(
            f,
        ));
        assert(linjer(foer) =~= x.map_values(f));
        assert(linjer(foer + rest) =~= linjer(foer) + linjer(rest));
    }
}

proof fn ordet_paa_linja(a: Seq<char>, bredde: u32, hoyde: u32, b: Seq<char>)
    requires
        bredde >= 16,
        hoyde >= 16,
        a.len() > 0 ==> a.last() == ' ' || a.last() == ',',
        b.len() > 0 ==> b[0] == ' ' || b[0] == ',',
        forste_maal(splittet(a, seq![' ', ','])) is None,
    ensures
        forste_maal(
            splittet(
                a + (desimaler(bredde as nat).push('x') + desimaler(hoyde as nat)) + b,
                seq![' ', ','],
            ),
        ) == Some((bredde, hoyde)),
{
    let skille = seq![' ', ','];
    assert(skille[0] == ' ' && skille[1] == ',');
    let w = desimaler(bredde as nat);
    let h = desimaler(hoyde as nat);
    let ord = w.push('x') + h;
    maal_leses_som_skrevet(bredde, hoyde);
    desimaler_er_bare_sifre(bredde as nat);
    desimaler_er_bare_sifre(hoyde as nat);
    assert forall|i: int| 0 <= i < ord.len() implies !skille.contains(#[trigger] ord[i]) by {
        if i < w.len() {
            assert('0' <= w[i] <= '9');
        } else if i > w.len() {
            assert('0' <= h[i - w.len() - 1] <= '9');
        }
    }
    uten_skille_ett_stykke(ord, skille);
    let en = seq![ord];
    assert(en.drop_last() =~= Seq::<Seq<char>>::empty());
    assert(forste_maal(en.drop_last()) is None && en.last() == ord);
    assert(forste_maal(en) == Some((bredde, hoyde)));
    let bak = ord + b;
    assert(forste_maal(splittet(bak, skille)) == Some((bredde, hoyde))) by {
        if b.len() == 0 {
            assert(bak =~= ord);
        } else {
            let c = b[0];
            assert(bak =~= ord.push(c) + b.skip(1));
            splittes_ved_skillet(ord, c, b.skip(1), skille);
            forste_maal_i_rekkefolge(en, splittet(b.skip(1), skille));
        }
    }
    if a.len() == 0 {
        assert(a + ord + b =~= bak);
    } else {
        let g = a.drop_last();
        let c = a.last();
        assert(a + ord + b =~= g.push(c) + bak);
        splittes_ved_skillet(g, c, bak, skille);
        forste_maal_i_rekkefolge(splittet(g, skille), splittet(bak, skille));
        assert(splittet(a, skille) == splittet(g, skille).push(Seq::empty()));
        assert(splittet(a, skille).drop_last() =~= splittet(g, skille));
    }
}

/// A size that is found stands, as a word of its own, on a line that speaks of a video: the
/// number of the line and that of the word on it are given.
pub proof fn maal_staar_paa_videolinje(stderr: Seq<char>) -> (r: (int, int))
    ensures
        maal_i(stderr) == (0u32, 0u32) || maal_i(stderr).0 >= 16 && maal_i(stderr).1 >= 16,
        maal_i(stderr) != (0u32, 0u32) ==> {
            let l = linjer(stderr)[r.0];
            let ord = splittet(l, seq![' ', ','])[r.1];
            &&& 0 <= r.0 < linjer(stderr).len()
            &&& inneholder_tekst(l, "Video:"@)
            &&& 0 <= r.1 < splittet(l, seq![' ', ',']).len()
            &&& exists|i: int|
                0 <= i < ord.len() && #[trigger] ord[i] == 'x' && tall(ord.take(i)) == Some(
                    maal_i(stderr).0,
                ) && tall(ord.skip(i + 1)) == Some(maal_i(stderr).1)
        },
{
    let alle = linjer(stderr);
    if forste_videomaal(alle) is Some {
        let (l, k) = videomaal_et_sted(alle);
        maal_staar_i_ordet(splittet(alle[l], seq![' ', ','])[k]);
        (l, k)
    } else {
        (0, 0)
    }
}

proof fn videomaal_et_sted(alle: Seq<Seq<char>>) -> (r: (int, int))
    requires
        forste_videomaal(alle) is Some,
    ensures
        0 <= r.0 < alle.len(),
        inneholder_tekst(alle[r.0], "Video:"@),
        0 <= r.1 < splittet(alle[r.0], seq![' ', ',']).len(),
        maal_av_ord(splittet(alle[r.0], seq![' ', ','])[r.1]) == forste_videomaal(alle),
    decreases alle.len(),
{
    if forste_videomaal(alle.drop_last()) is Some {
        videomaal_et_sted(alle.drop_last())
    } else {
        let k = maal_et_sted(splittet(alle.last(), seq![' ', ',']));
        (alle.len() - 1, k)
    }
}

proof fn maal_et_sted(ord: Seq<Seq<char>>) -> (k: int)
    requires
        forste_maal(ord) is Some,
    ensures
        0 <= k < ord.len(),
        maal_av_ord(ord[k]) == forste_maal(ord),
    decreases ord.len(),
{
    if forste_maal(ord.drop_last()) is Some {
        maal_et_sted(ord.drop_last())
    } else {
        ord.len() - 1
    }
}

/// The media type of a file is that of what follows the last full stop of its name, in
/// capitals or not: `a` is the name before it and `b` the kind.
pub proof fn typen_er_endelsens(a: Seq<char>, b: Seq<char>)
    requires
        !b.contains('.'),
    ensures
        mime(a.push('.') + b) == mime_av_type(smaa(b)),
        mime(b) == mime_av_type(smaa(b)),
{
    let navn = a.push('.') + b;
    siste_sted_er_der_det_staar(a, '.', b);
    assert(navn.skip(a.len() as int + 1) =~= b);
    siste_sted_er_sist(b, '.');
}

/// The kinds of files that have a media type of their own, and that of each.
pub proof fn kjente_medietyper()
    ensures
        mime_av_type("jpg"@) == "image/jpeg"@,
        mime_av_type("jpeg"@) == "image/jpeg"@,
        mime_av_type("png"@) == "image/png"@,
        mime_av_type("webp"@) == "image/webp"@,
        mime_av_type("gif"@) == "image/gif"@,
        mime_av_type("heic"@) == "image/heic"@,
        mime_av_type("tif"@) == "image/tiff"@,
        mime_av_type("tiff"@) == "image/tiff"@,
        mime_av_type("dng"@) == "image/x-adobe-dng"@,
        mime_av_type("arw"@) == "image/x-sony-arw"@,
        mime_av_type("cr2"@) == "image/x-canon-cr2"@,
        mime_av_type("cr3"@) == "image/x-canon-cr3"@,
        mime_av_type("nef"@) == "image/x-nikon-nef"@,
        mime_av_type("raf"@) == "image/x-fuji-raf"@,
        mime_av_type("mp4"@) == "video/mp4"@,
        mime_av_type("mov"@) == "video/quicktime"@,
        mime_av_type("mxf"@) == "application/mxf"@,
        mime_av_type("pdf"@) == "application/pdf"@,
{
    reveal_strlit("jpg");
    reveal_strlit("jpeg");
    reveal_strlit("png");
    reveal_strlit("webp");
    reveal_strlit("gif");
    reveal_strlit("heic");
    reveal_strlit("tif");
    reveal_strlit("tiff");
    reveal_strlit("dng");
    reveal_strlit("arw");
    reveal_strlit("cr2");
    reveal_strlit("cr3");
    reveal_strlit("nef");
    reveal_strlit("raf");
    reveal_strlit("mp4");
    reveal_strlit("mov");
    reveal_strlit("mxf");
    reveal_strlit("pdf");
    assert("jpg"@ =~= seq!['j', 'p', 'g']);
    assert("jpeg"@ =~= seq!['j', 'p', 'e', 'g']);
    assert("png"@ =~= seq!['p', 'n', 'g']);
    assert("webp"@ =~= seq!['w', 'e', 'b', 'p']);
    assert("gif"@ =~= seq!['g', 'i', 'f']);
    assert("heic"@ =~= seq!['h', 'e', 'i', 'c']);
    assert("tif"@ =~= seq!['t', 'i', 'f']);
    assert("tiff"@ =~= seq!['t', 'i', 'f', 'f']);
    assert("dng"@ =~= seq!['d', 'n', 'g']);
    assert("arw"@ =~= seq!['a', 'r', 'w']);
    assert("cr2"@ =~= seq!['c', 'r', '2']);
    assert("cr3"@ =~= seq!['c', 'r', '3']);
    assert("nef"@ =~= seq!['n', 'e', 'f']);
    assert("raf"@ =~= seq!['r', 'a', 'f']);
    assert("mp4"@ =~= seq!['m', 'p', '4']);
    assert("mov"@ =~= seq!['m', 'o', 'v']);
    assert("mxf"@ =~= seq!['m', 'x', 'f']);
    assert("pdf"@ =~= seq!['p', 'd', 'f']);
}

/// Every other kind of file is only bytes.
pub proof fn ukjent_type_er_bytes(e: Seq<char>)
    requires
        e != "jpg"@ && e != "jpeg"@ && e != "png"@ && e != "webp"@ && e != "gif"@ && e != "heic"@
            && e != "tif"@ && e != "tiff"@ && e != "dng"@ && e != "arw"@ && e != "cr2"@
            && e != "cr3"@ && e != "nef"@ && e != "raf"@ && e != "mp4"@ && e != "mov"@
            && e != "mxf"@ && e != "pdf"@,
    ensures
        mime_av_type(e) == "application/octet-stream"@,
{
}

/// Among files with a kind, the videos are those of the kinds mp4, mov and mxf, in capitals
/// or not.
pub proof fn tre_slags_video(a: Seq<char>, b: Seq<char>)
    requires
        !b.contains('.'),
    ensures
        videonavn(a.push('.') + b) <==> smaa(b) == "mp4"@ || smaa(b) == "mov"@ || smaa(b) == "mxf"@,
{
    let navn = a.push('.') + b;
    let e = smaa(b);
    typen_er_endelsens(a, b);
    kjente_medietyper();
    videotyper(e);
    reveal_strlit(".mxf");
    reveal_strlit("mxf");
    let liten = smaa(navn);
    assert(liten =~= smaa(a).push('.') + e);
    if e == "mxf"@ {
        assert(liten.skip(liten.len() - 4) =~= ".mxf"@);
    }
    if har_suffiks(liten, ".mxf"@) {
        let hale = liten.skip(liten.len() - 4);
        assert(hale[0] == '.' && hale[1] == 'm' && hale[2] == 'x' && hale[3] == 'f');
        let i = liten.len() - 4;
        assert(liten[i] == '.');
        let k = navn.len() - 4;
        assert(smaa(navn)[k] == '.');
        assert(navn[k] == '.');
        if k > a.len() {
            assert(b[k - a.len() - 1] == '.');
        } else if k < a.len() {
            assert(liten[a.len() as int] == '.');
            assert(hale[a.len() - k] == '.');
        }
        assert(k == a.len());
        assert(e =~= "mxf"@) by {
            assert(e[0] == hale[1] && e[1] == hale[2] && e[2] == hale[3]);
        }
    }
}

proof fn videotyper(e: Seq<char>)
    ensures
        har_prefiks(mime_av_type(e), "video/"@) <==> e == "mp4"@ || e == "mov"@,
{
    reveal_strlit("video/");
    reveal_strlit("video/mp4");
    reveal_strlit("video/quicktime");
    assert("video/mp4"@.take(6) =~= "video/"@);
    assert("video/quicktime"@.take(6) =~= "video/"@);
    kjente_medietyper();
    assert forall|m: Seq<char>| m.len() > 0 && m[0] != 'v' implies !#[trigger] har_prefiks(
        m,
        "video/"@,
    ) by {
        if har_prefiks(m, "video/"@) {
            assert(m.take(6)[0] == 'v');
        }
    }
    reveal_strlit("image/jpeg");
    reveal_strlit("image/png");
    reveal_strlit("image/webp");
    reveal_strlit("image/gif");
    reveal_strlit("image/heic");
    reveal_strlit("image/tiff");
    reveal_strlit("image/x-adobe-dng");
    reveal_strlit("image/x-sony-arw");
    reveal_strlit("image/x-canon-cr2");
    reveal_strlit("image/x-canon-cr3");
    reveal_strlit("image/x-nikon-nef");
    reveal_strlit("image/x-fuji-raf");
    reveal_strlit("application/mxf");
    reveal_strlit("application/pdf");
    reveal_strlit("application/octet-stream");
}

/// The length of a clip is read from what ffmpeg gives behind the word for it: the hours,
/// minutes and seconds between the colons, up to the comma. `foer` is what comes before, and
/// `rest` what follows the comma.
pub proof fn varigheten_leses(
    foer: Seq<char>,
    timer: Seq<char>,
    minutter: Seq<char>,
    sekunder: Seq<char>,
    rest: Seq<char>,
)
    requires
        forste_sted(
            foer + "Duration: "@ + timer + ":"@ + minutter + ":"@ + sekunder + ","@ + rest,
            "Duration: "@,
        ) == Some(foer.len() as int),
        er_tidsord(timer),
        er_tidsord(minutter),
        er_tidsord(sekunder),
    ensures
        varighetsord(
            foer + "Duration: "@ + timer + ":"@ + minutter + ":"@ + sekunder + ","@ + rest,
        ) == Some(seq![timer, minutter, sekunder]),
{
    reveal_strlit("Duration: ");
    reveal_strlit(":");
    reveal_strlit(",");
    let alt = foer + "Duration: "@ + timer + ":"@ + minutter + ":"@ + sekunder + ","@ + rest;
    let tid = timer + ":"@ + minutter + ":"@ + sekunder;
    let bak = alt.skip(foer.len() as int + 10);
    assert(bak =~= tid.push(',') + rest);
    let komma = seq![','];
    let kolon = seq![':'];
    assert(komma[0] == ',' && kolon[0] == ':');
    assert forall|i: int| 0 <= i < tid.len() implies !komma.contains(#[trigger] tid[i]) by {
        if i < timer.len() {
            assert(tid[i] == timer[i]);
        } else if timer.len() < i < timer.len() + 1 + minutter.len() {
            assert(tid[i] == minutter[i - timer.len() - 1]);
        } else if i > timer.len() + 1 + minutter.len() {
            assert(tid[i] == sekunder[i - timer.len() - minutter.len() - 2]);
        }
    }
    uten_skille_ett_stykke(tid, komma);
    splittes_ved_skillet(tid, ',', rest, komma);
    assert(splittet(bak, komma)[0] == tid);
    trimmes_ikke(tid);
    let b = minutter.push(':') + sekunder;
    assert(tid =~= timer.push(':') + b);
    ingen_kolon(timer);
    ingen_kolon(minutter);
    ingen_kolon(sekunder);
    uten_skille_ett_stykke(timer, kolon);
    uten_skille_ett_stykke(minutter, kolon);
    uten_skille_ett_stykke(sekunder, kolon);
    splittes_ved_skillet(timer, ':', b, kolon);
    splittes_ved_skillet(minutter, ':', sekunder, kolon);
    trimmes_ikke(timer);
    trimmes_ikke(minutter);
    trimmes_ikke(sekunder);
    let d = splittet(tid, kolon);
    assert(d =~= seq![timer, minutter, sekunder]);
    assert(d.map_values(|s: Seq<char>| trimmet(s)) =~= seq![timer, minutter, sekunder]);
}

/// Whether a text can be a word for hours, minutes or seconds: it is not empty, and holds
/// neither a comma nor a colon nor white space.
pub open spec fn er_tidsord(s: Seq<char>) -> bool {
    s.len() > 0 && forall|i: int|
        0 <= i < s.len() ==> #[trigger] s[i] != ',' && s[i] != ':' && !blankt(s[i])
}

proof fn ingen_kolon(s: Seq<char>)
    requires
        er_tidsord(s),
    ensures
        forall|i: int| 0 <= i < s.len() ==> !seq![':'].contains(#[trigger] s[i]),
{
}

proof fn trimmes_ikke(s: Seq<char>)
    requires
        s.len() > 0,
        !blankt(s[0]),
        !blankt(s[s.len() - 1]),
    ensures
        trimmet(s) == s,
{
}

/// There are at least 12 pictures to scrub through and at most 48, and in between as many as
/// the clip has seconds.
pub proof fn ett_bilde_i_sekundet(sekunder: u32)
    ensures
        12 <= antall_bilder(sekunder) <= 48,
        12 <= sekunder <= 48 ==> antall_bilder(sekunder) == sekunder,
        sekunder < 12 ==> antall_bilder(sekunder) == 12,
        sekunder > 48 ==> antall_bilder(sekunder) == 48,
{
}

/// A picture of more than a thousand bytes is handed on as an address that says that it is
/// one, and then the picture; a smaller one is not.
pub proof fn bare_bilder_gis_videre(jpg: Vec<u8>)
    ensures
        bilde_av(Some(jpg)) is Some <==> jpg@.len() > 1000,
        bilde_av(None) is None,
        bilde_av(Some(jpg)) matches Some(u) ==> har_prefiks(u, "data:image/jpeg;base64,"@) && u.skip(
            "data:image/jpeg;base64,"@.len() as int,
        ) == base64_av(jpg@),
{
    let p = "data:image/jpeg;base64,"@;
    let u = p + base64_av(jpg@);
    assert(u.take(p.len() as int) =~= p);
    assert(u.skip(p.len() as int) =~= base64_av(jpg@));
}

/// The length of a clip is found exactly where ffmpeg has the word for it.
pub proof fn varighet_bare_der_ordet_staar(stderr: Seq<char>)
    ensures
        varighetsord(stderr) is Some <==> inneholder_tekst(stderr, "Duration: "@),
{
}

} // verus!
