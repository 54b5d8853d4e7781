//! Making a version of a clip for playback, and storing it.
//!
//! The encoders are tried in turn; the first whose result holds is stored. Whatever comes
//! of it, the temporary file is deleted.
use crate::media::ordene_i;
use crate::portal::{er_bra, gikk_bra};
use crate::tekst::{desimal, desimaler, tekster};
use vstd::prelude::*;
use vstd::string::*;

verus! {

/// The size, in bytes, up to which a result is taken for a failure.
pub const MINSTE_PROXY: u64 = 10_000;

/// A way to encode.
#[derive(Clone, Copy, Debug, PartialEq, Eq, Structural)]
pub enum Enkoder {
    VideoToolbox,
    Nvenc,
    OpenH264,
}

/// The encoders to try on a machine, in order: its hardware first.
pub open spec fn enkodere_av(mac: bool) -> Seq<Enkoder> {
    if mac {
        seq![Enkoder::VideoToolbox, Enkoder::OpenH264]
    } else {
        seq![Enkoder::Nvenc, Enkoder::OpenH264]
    }
}

/// Lists the encoders to try on a machine.
pub fn enkodere(mac: bool) -> (r: Vec<Enkoder>)
    ensures
        r@ == enkodere_av(mac),
{
    let mut ut: Vec<Enkoder> = Vec::new();
    if mac {
        ut.push(Enkoder::VideoToolbox);
    } else {
        ut.push(Enkoder::Nvenc);
    }
    ut.push(Enkoder::OpenH264);
    assert(ut@ =~= enkodere_av(mac));
    ut
}

/// What ffmpeg calls an encoder, and how good the result is to be.
pub open spec fn enkoderord(e: Enkoder) -> Seq<Seq<char>> {
    match e {
        Enkoder::VideoToolbox => seq!["h264_videotoolbox"@, "-q:v"@, "55"@],
        Enkoder::Nvenc => seq![
            "h264_nvenc"@,
            "-preset"@,
            "p4"@,
            "-rc"@,
            "vbr"@,
            "-cq"@,
            "26"@,
            "-b:v"@,
            "0"@,
        ],
        Enkoder::OpenH264 => seq!["libopenh264"@, "-b:v"@, "8M"@],
    }
}

/// Appends words.
fn legg_til(ut: &mut Vec<String>, v: &[&str])
    ensures
        tekster(final(ut)@) == tekster(old(ut)@) + ordene_i(v@),
{
    let ghost foran = tekster(ut@);
    let mut i: usize = 0;
    assert(tekster(ut@) =~= foran + ordene_i(v@).take(0));
    while i < v.len()
        invariant
            i <= v@.len(),
            tekster(ut@) == foran + ordene_i(v@).take(i as int),
        decreases v@.len() - i,
    {
        let ghost foer = ut@;
        let ord = v[i].to_owned();
        ut.push(ord);
        assert(tekster(ut@) =~= tekster(foer).push(ord@));
        i += 1;
        assert(tekster(ut@) =~= foran + ordene_i(v@).take(i as int));
    }
    assert(ordene_i(v@).take(i as int) =~= ordene_i(v@));
}

/// The arguments with which ffmpeg makes a version for playback, at most 1920 wide.
pub open spec fn proxy_ord(e: Enkoder, sti: Seq<char>, ut: Seq<char>) -> Seq<Seq<char>> {
    seq![
        "-hide_banner"@,
        "-loglevel"@,
        "error"@,
        "-y"@,
        "-i"@,
        sti,
        "-vf"@,
        "scale='min(1920,iw)':-2"@,
        "-c:v"@,
    ] + enkoderord(e) + seq![
        "-pix_fmt"@,
        "yuv420p"@,
        "-movflags"@,
        "+faststart"@,
        "-c:a"@,
        "aac"@,
        "-b:a"@,
        "128k"@,
        ut,
    ]
}

/// The arguments with which ffmpeg makes a version for playback.
pub fn proxy_args(e: Enkoder, sti: &str, ut: &str) -> (r: Vec<String>)
    ensures
        tekster(r@) == proxy_ord(e, sti@, ut@),
{
    let mut a: Vec<String> = Vec::new();
    let foran: [&str; 9] = [
        "-hide_banner",
        "-loglevel",
        "error",
        "-y",
        "-i",
        sti,
        "-vf",
        "scale='min(1920,iw)':-2",
        "-c:v",
    ];
    legg_til(&mut a, &foran);
    let ghost del1 = ordene_i(foran@);
    match e {
        Enkoder::VideoToolbox => {
            let v: [&str; 3] = ["h264_videotoolbox", "-q:v", "55"];
            legg_til(&mut a, &v);
            assert(ordene_i(v@) =~= enkoderord(e));
        },
        Enkoder::Nvenc => {
            let v: [&str; 9] = [
                "h264_nvenc",
                "-preset",
                "p4",
                "-rc",
                "vbr",
                "-cq",
                "26",
                "-b:v",
                "0",
            ];
            legg_til(&mut a, &v);
            assert(ordene_i(v@) =~= enkoderord(e));
        },
        Enkoder::OpenH264 => {
            let v: [&str; 3] = ["libopenh264", "-b:v", "8M"];
            legg_til(&mut a, &v);
            assert(ordene_i(v@) =~= enkoderord(e));
        },
    }
    let bak: [&str; 9] = [
        "-pix_fmt",
        "yuv420p",
        "-movflags",
        "+faststart",
        "-c:a",
        "aac",
        "-b:a",
        "128k",
        ut,
    ];
    legg_til(&mut a, &bak);
    proof {
        assert(del1 =~= seq![
            "-hide_banner"@,
            "-loglevel"@,
            "error"@,
            "-y"@,
            "-i"@,
            sti@,
            "-vf"@,
            "scale='min(1920,iw)':-2"@,
            "-c:v"@,
        ]);
        assert(ordene_i(bak@) =~= seq![
            "-pix_fmt"@,
            "yuv420p"@,
            "-movflags"@,
            "+faststart"@,
            "-c:a"@,
            "aac"@,
            "-b:a"@,
            "128k"@,
            ut@,
        ]);
        assert(tekster(a@) =~= proxy_ord(e, sti@, ut@));
    }
    a
}

/// The name of the temporary file.
pub fn proxy_navn(prosess: u32, suffiks: &str) -> (r: String)
    ensures
        r@ == "rawskap-proxy-"@ + desimaler(prosess as nat) + "-"@ + suffiks@ + ".mp4"@,
{
    let mut ut = "rawskap-proxy-".to_owned();
    ut.append(desimal(prosess as u64).as_str());
    ut.append("-");
    ut.append(suffiks);
    ut.append(".mp4");
    ut
}

/// Whether a result is the whole clip, and not only its first pictures: it is not too small
/// and, where both lengths could be found, long enough.
pub open spec fn holder(storrelse: Option<u64>, kilde_kjent: bool, lang_nok: Option<bool>) -> bool {
    &&& storrelse is Some
    &&& storrelse->0 > MINSTE_PROXY
    &&& kilde_kjent ==> lang_nok != Some(false)
}

/// Decides whether a result is the whole clip.
pub fn proxy_holder(storrelse: Option<u64>, kilde_kjent: bool, lang_nok: Option<bool>) -> (r: bool)
    ensures
        r == holder(storrelse, kilde_kjent, lang_nok),
{
    let stor = match storrelse {
        Some(n) => n > MINSTE_PROXY,
        None => false,
    };
    let kort = match lang_nok {
        Some(nok) => !nok,
        None => false,
    };
    stor && !(kilde_kjent && kort)
}

/// What is known before the first encoder is tried.
#[derive(Clone, Copy, Debug, PartialEq, Eq, Structural)]
pub struct Oppgave {
    /// How many encoders there are.
    pub enkodere: usize,
    /// Whether the length of the clip is known.
    pub kilde_kjent: bool,
}

/// What the making of a version for playback waits for.
#[derive(Clone, Copy, Debug, PartialEq, Eq, Structural)]
pub enum Trinn {
    /// The encoder with this number is at work.
    Enkod { i: usize },
    /// The size of its result.
    Storrelse { i: usize },
    /// The length of its result, which is this big.
    Lengde { i: usize, storrelse: u64 },
    /// Its result is being deleted.
    Slett { i: usize },
    /// What is left is being deleted.
    SlettRest,
    /// The result is being read.
    Les,
    /// The result, of this many bytes, is being stored.
    Send { n: u64 },
    /// The result is being deleted, after the storage has taken it or not.
    Rydd { n: u64, tatt: bool },
    Over,
}

/// What came of an action.
#[derive(Clone, Copy, Debug, PartialEq, Eq, Structural)]
pub enum Hendelse {
    /// Whether ffmpeg could be run.
    Kjort(bool),
    /// The size of the file, where it is there.
    Storrelse(Option<u64>),
    /// Whether the result is long enough, where its length could be found.
    Lengde(Option<bool>),
    /// The file was deleted, or was not there.
    Slettet,
    /// How many bytes were read, where the file could be read.
    Lest(Option<u64>),
    /// The status with which the storage answered, where it did.
    Sendt(Option<u16>),
}

/// What the application is to do next.
#[derive(Clone, Copy, Debug, PartialEq, Eq, Structural)]
pub enum Handling {
    Enkod { i: usize },
    SeStorrelse,
    SeLengde,
    Slett,
    Les,
    Send,
    /// It is over; the size of what was stored, where something was.
    Ferdig(Option<u64>),
}

/// Whether an event can come of what is waited for.
pub open spec fn mulig(t: Trinn, h: Hendelse) -> bool {
    match (t, h) {
        (Trinn::Enkod { .. }, Hendelse::Kjort(_)) => true,
        (Trinn::Storrelse { .. }, Hendelse::Storrelse(_)) => true,
        (Trinn::Lengde { .. }, Hendelse::Lengde(_)) => true,
        (Trinn::Slett { .. }, Hendelse::Slettet) => true,
        (Trinn::SlettRest, Hendelse::Slettet) => true,
        (Trinn::Les, Hendelse::Lest(_)) => true,
        (Trinn::Send { .. }, Hendelse::Sendt(_)) => true,
        (Trinn::Rydd { .. }, Hendelse::Slettet) => true,
        _ => false,
    }
}

/// The next step.
pub open spec fn neste(o: Oppgave, t: Trinn, h: Hendelse) -> (Trinn, Handling) {
    match (t, h) {
        (Trinn::Enkod { i }, Hendelse::Kjort(gikk)) => if gikk {
            (Trinn::Storrelse { i }, Handling::SeStorrelse)
        } else {
            (Trinn::Slett { i }, Handling::Slett)
        },
        (Trinn::Storrelse { i }, Hendelse::Storrelse(s)) => if !holder(s, false, None) {
            (Trinn::Slett { i }, Handling::Slett)
        } else if !o.kilde_kjent {
            (Trinn::Les, Handling::Les)
        } else {
            (Trinn::Lengde { i, storrelse: s->0 }, Handling::SeLengde)
        },
        (Trinn::Lengde { i, storrelse }, Hendelse::Lengde(lang_nok)) => if holder(
            Some(storrelse),
            o.kilde_kjent,
            lang_nok,
        ) {
            (Trinn::Les, Handling::Les)
        } else {
            (Trinn::Slett { i }, Handling::Slett)
        },
        (Trinn::Slett { i }, Hendelse::Slettet) => if i + 1 < o.enkodere {
            (Trinn::Enkod { i: (i + 1) as usize }, Handling::Enkod { i: (i + 1) as usize })
        } else {
            (Trinn::SlettRest, Handling::Slett)
        },
        (Trinn::SlettRest, Hendelse::Slettet) => (Trinn::Over, Handling::Ferdig(None)),
        (Trinn::Les, Hendelse::Lest(lest)) => match lest {
            Some(n) => if n > MINSTE_PROXY {
                (Trinn::Send { n }, Handling::Send)
            } else {
                (Trinn::SlettRest, Handling::Slett)
            },
            None => (Trinn::SlettRest, Handling::Slett),
        },
        (Trinn::Send { n }, Hendelse::Sendt(status)) => (
            Trinn::Rydd { n, tatt: status is Some && gikk_bra(status->0) },
            Handling::Slett,
        ),
        (Trinn::Rydd { n, tatt }, Hendelse::Slettet) => (
            Trinn::Over,
            Handling::Ferdig(
                if tatt {
                    Some(n)
                } else {
                    None
                },
            ),
        ),
        _ => (Trinn::Over, Handling::Ferdig(None)),
    }
}

impl Trinn {
    /// It begins with the first encoder.
    pub fn begynn() -> (r: (Trinn, Handling))
        ensures
            r == begynnelse(),
    {
        (Trinn::Enkod { i: 0 }, Handling::Enkod { i: 0 })
    }

    /// Whether an event can come of what is waited for.
    pub fn kan_motta(self, h: Hendelse) -> (r: bool)
        ensures
            r == mulig(self, h),
    {
        match (self, h) {
            (Trinn::Enkod { i: _ }, Hendelse::Kjort(_)) => true,
            (Trinn::Storrelse { i: _ }, Hendelse::Storrelse(_)) => true,
            (Trinn::Lengde { i: _, storrelse: _ }, Hendelse::Lengde(_)) => true,
            (Trinn::Slett { i: _ }, Hendelse::Slettet) => true,
            (Trinn::SlettRest, Hendelse::Slettet) => true,
            (Trinn::Les, Hendelse::Lest(_)) => true,
            (Trinn::Send { n: _ }, Hendelse::Sendt(_)) => true,
            (Trinn::Rydd { n: _, tatt: _ }, Hendelse::Slettet) => true,
            _ => false,
        }
    }
}

/// How it begins.
pub open spec fn begynnelse() -> (Trinn, Handling) {
    (Trinn::Enkod { i: 0 }, Handling::Enkod { i: 0 })
}

/// Takes the next step in making a version for playback and storing it.
pub fn lag_og_last_opp_proxy(o: Oppgave, t: Trinn, h: Hendelse) -> (r: (Trinn, Handling))
    requires
        mulig(t, h),
    ensures
        r == neste(o, t, h),
{
    match (t, h) {
        (Trinn::Enkod { i }, Hendelse::Kjort(gikk)) => {
            if gikk {
                (Trinn::Storrelse { i }, Handling::SeStorrelse)
            } else {
                (Trinn::Slett { i }, Handling::Slett)
            }
        },
        (Trinn::Storrelse { i }, Hendelse::Storrelse(s)) => {
            match s {
                Some(storrelse) => {
                    if !proxy_holder(s, false, None) {
                        (Trinn::Slett { i }, Handling::Slett)
                    } else if !o.kilde_kjent {
                        (Trinn::Les, Handling::Les)
                    } else {
                        (Trinn::Lengde { i, storrelse }, Handling::SeLengde)
                    }
                },
                None => (Trinn::Slett { i }, Handling::Slett),
            }
        },
        (Trinn::Lengde { i, storrelse }, Hendelse::Lengde(lang_nok)) => {
            if proxy_holder(Some(storrelse), o.kilde_kjent, lang_nok) {
                (Trinn::Les, Handling::Les)
            } else {
                (Trinn::Slett { i }, Handling::Slett)
            }
        },
        (Trinn::Slett { i }, Hendelse::Slettet) => {
            if i < o.enkodere && i + 1 < o.enkodere {
                (Trinn::Enkod { i: i + 1 }, Handling::Enkod { i: i + 1 })
            } else {
                (Trinn::SlettRest, Handling::Slett)
            }
        },
        (Trinn::SlettRest, Hendelse::Slettet) => (Trinn::Over, Handling::Ferdig(None)),
        (Trinn::Les, Hendelse::Lest(lest)) => {
            match lest {
                Some(n) => {
                    if n > MINSTE_PROXY {
                        (Trinn::Send { n }, Handling::Send)
                    } else {
                        (Trinn::SlettRest, Handling::Slett)
                    }
                },
                None => (Trinn::SlettRest, Handling::Slett),
            }
        },
        (Trinn::Send { n }, Hendelse::Sendt(status)) => {
            let tatt = match status {
                Some(kode) => er_bra(kode),
                None => false,
            };
            (Trinn::Rydd { n, tatt }, Handling::Slett)
        },
        (Trinn::Rydd { n, tatt }, Hendelse::Slettet) => {
            let lagret = if tatt {
                Some(n)
            } else {
                None
            };
            (Trinn::Over, Handling::Ferdig(lagret))
        },
        _ => (Trinn::Over, Handling::Ferdig(None)),
    }
}

/// What a course of events leads to.
pub open spec fn kjort(o: Oppgave, hs: Seq<Hendelse>) -> (Trinn, Handling)
    decreases hs.len(),
{
    if hs.len() == 0 {
        begynnelse()
    } else {
        neste(o, kjort(o, hs.drop_last()).0, hs.last())
    }
}

/// Whether each event can come of the step before it.
pub open spec fn mulig_lop(o: Oppgave, hs: Seq<Hendelse>) -> bool
    decreases hs.len(),
{
    hs.len() > 0 ==> mulig_lop(o, hs.drop_last()) && mulig(kjort(o, hs.drop_last()).0, hs.last())
}

/// A version for playback is told of only where the storage has taken it, and with the
/// size that was read and sent.
pub proof fn bare_lagret_proxy_meldes(o: Oppgave, hs: Seq<Hendelse>, n: u64)
    requires
        mulig_lop(o, hs),
        kjort(o, hs).1 == Handling::Ferdig(Some(n)),
    ensures
        hs.len() >= 3,
        n > MINSTE_PROXY,
        hs[hs.len() - 3] == Hendelse::Lest(Some(n)),
        hs[hs.len() - 2] matches Hendelse::Sendt(Some(kode)) && gikk_bra(kode),
{
    let h1 = hs.drop_last();
    let h2 = h1.drop_last();
    let h3 = h2.drop_last();
    assert(kjort(o, hs) == neste(o, kjort(o, h1).0, hs.last()));
    assert(h1.len() > 0);
    assert(kjort(o, h1) == neste(o, kjort(o, h2).0, h1.last()));
    assert(h2.len() > 0);
    assert(kjort(o, h2) == neste(o, kjort(o, h3).0, h2.last()));
    assert(h1.last() == hs[hs.len() - 2]);
    assert(h2.last() == hs[hs.len() - 3]);
}

/// A result is stored only where it holds: it was not too small, and where the length of
/// the clip is known, it was not found to be too short.
pub proof fn bare_hel_proxy_lagres(o: Oppgave, hs: Seq<Hendelse>)
    requires
        mulig_lop(o, hs),
        kjort(o, hs).1 == Handling::Les,
    ensures
        hs.len() > 0,
        o.kilde_kjent ==> hs.last() is Lengde && hs.last()->Lengde_0 != Some(false),
        !o.kilde_kjent ==> hs.last() is Storrelse && holder(
            hs.last()->Storrelse_0,
            false,
            None,
        ),
{
    alltid_stor_nok(o, hs.drop_last());
}

proof fn alltid_stor_nok(o: Oppgave, hs: Seq<Hendelse>)
    requires
        mulig_lop(o, hs),
    ensures
        kjort(o, hs).0 matches Trinn::Lengde { storrelse, .. } ==> o.kilde_kjent && storrelse
            > MINSTE_PROXY,
{
}

/// The last thing that is done is to delete the temporary file.
pub proof fn midlertidig_fil_slettes(o: Oppgave, hs: Seq<Hendelse>)
    requires
        mulig_lop(o, hs),
        kjort(o, hs).0 == Trinn::Over,
    ensures
        hs.len() > 0,
        hs.last() == Hendelse::Slettet,
{
}

/// How much is left: encoders, and steps with the present one.
pub open spec fn igjen(o: Oppgave, t: Trinn) -> int {
    match t {
        Trinn::Enkod { i } => 4 * (o.enkodere - i) + 8,
        Trinn::Storrelse { i } => 4 * (o.enkodere - i) + 7,
        Trinn::Lengde { i, .. } => 4 * (o.enkodere - i) + 6,
        Trinn::Slett { i } => 4 * (o.enkodere - i) + 5,
        Trinn::Les => 4,
        Trinn::Send { .. } => 3,
        Trinn::Rydd { .. } => 2,
        Trinn::SlettRest => 1,
        Trinn::Over => 0,
    }
}

/// Whether the present encoder is one of those that there are.
pub open spec fn innenfor(o: Oppgave, t: Trinn) -> bool {
    match t {
        Trinn::Enkod { i } => i < o.enkodere,
        Trinn::Storrelse { i } => i < o.enkodere,
        Trinn::Lengde { i, .. } => i < o.enkodere,
        Trinn::Slett { i } => i < o.enkodere,
        _ => true,
    }
}

/// Each encoder is tried at most once, so that there is an end to it: each step leaves
/// less to do.
pub proof fn hvert_steg_naermere(o: Oppgave, t: Trinn, h: Hendelse)
    requires
        mulig(t, h),
        innenfor(o, t),
    ensures
        innenfor(o, neste(o, t, h).0),
        0 <= igjen(o, neste(o, t, h).0) < igjen(o, t),
{
}

/// Of two ways to encode, that of the machine's hardware comes first and the one that is
/// always there last.
pub proof fn maskinvaren_forst(mac: bool)
    ensures
        enkodere_av(mac).len() == 2,
        enkodere_av(mac)[0] == (if mac {
            Enkoder::VideoToolbox
        } else {
            Enkoder::Nvenc
        }),
        enkodere_av(mac)[1] == Enkoder::OpenH264,
{
}

/// ffmpeg is told to read the clip, to encode it in the way that is asked for, and to write
/// the result: the clip stands behind the word for what is read, the name of the encoder
/// behind the word for it, and the result at the end.
pub proof fn ffmpeg_far_vite_hva(e: Enkoder, sti: Seq<char>, ut: Seq<char>)
    ensures
        ({
            let a = proxy_ord(e, sti, ut);
            &&& a.len() > 10
            &&& a[4] == "-i"@ && a[5] == sti
            &&& a[6] == "-vf"@ && a[7] == "scale='min(1920,iw)':-2"@
            &&& a[8] == "-c:v"@
            &&& e == Enkoder::VideoToolbox ==> a[9] == "h264_videotoolbox"@
            &&& e == Enkoder::Nvenc ==> a[9] == "h264_nvenc"@
            &&& e == Enkoder::OpenH264 ==> a[9] == "libopenh264"@
            &&& a.last() == ut
            &&& a.contains("+faststart"@)
        }),
{
    let a = proxy_ord(e, sti, ut);
    assert(a[9] == enkoderord(e)[0]);
    let n = a.len();
    assert(a[n - 6] == "+faststart"@);
}

/// A result of up to ten thousand bytes is a failure, and so is one that is known to be too
/// short where the length of the clip is known; every other result holds.
pub proof fn hva_som_holder(storrelse: Option<u64>, kjent: bool, lang_nok: Option<bool>)
    ensures
        storrelse is None ==> !holder(storrelse, kjent, lang_nok),
        storrelse matches Some(n) ==> (holder(storrelse, kjent, lang_nok) <==> n > 10_000 && !(kjent
            && lang_nok == Some(false))),
{
}

/// What comes of an encoder: its result is looked at where ffmpeg could be run, and is read
/// where it holds; else it is deleted, and the next encoder is tried, or none is left.
pub proof fn neste_enkoder(o: Oppgave, i: usize, h: Hendelse)
    ensures
        neste(o, Trinn::Enkod { i }, Hendelse::Kjort(true)).1 == Handling::SeStorrelse,
        neste(o, Trinn::Enkod { i }, Hendelse::Kjort(false)).1 == Handling::Slett,
        i + 1 < o.enkodere ==> neste(o, Trinn::Slett { i }, Hendelse::Slettet).1 == (
        Handling::Enkod { i: (i + 1) as usize }),
        i + 1 >= o.enkodere ==> neste(o, Trinn::Slett { i }, Hendelse::Slettet).1
            == Handling::Slett && neste(o, Trinn::Slett { i }, Hendelse::Slettet).0
            == Trinn::SlettRest,
        h matches Hendelse::Storrelse(s) ==> {
            let r = neste(o, Trinn::Storrelse { i }, h).1;
            let stor = s matches Some(n) && n > 10_000;
            &&& !stor <==> r == Handling::Slett
            &&& stor && o.kilde_kjent <==> r == Handling::SeLengde
            &&& stor && !o.kilde_kjent <==> r == Handling::Les
        },
{
}

/// What is read is stored where it is large enough, and what is told of it is its size,
/// exactly where the storage took it.
pub proof fn lest_lagres_og_meldes(o: Oppgave, n: u64, status: Option<u16>)
    ensures
        n > 10_000 <==> neste(o, Trinn::Les, Hendelse::Lest(Some(n))).1 == Handling::Send,
        n <= 10_000 <==> neste(o, Trinn::Les, Hendelse::Lest(Some(n))).1 == Handling::Slett,
        neste(o, Trinn::Les, Hendelse::Lest(None)).1 == Handling::Slett,
        ({
            let sendt = neste(o, Trinn::Send { n }, Hendelse::Sendt(status));
            let slutt = neste(o, sendt.0, Hendelse::Slettet).1;
            let tatt = status matches Some(kode) && 200 <= kode <= 299;
            &&& sendt.1 == Handling::Slett
            &&& tatt <==> slutt == Handling::Ferdig(Some(n))
            &&& !tatt <==> slutt == Handling::Ferdig(None)
        }),
        neste(o, Trinn::SlettRest, Hendelse::Slettet).1 == Handling::Ferdig(None),
{
}

/// Whatever comes of what the application is told to do, the making can take it.
pub proof fn hvert_svar_kan_tas(o: Oppgave, hs: Seq<Hendelse>, h: Hendelse)
    requires
        mulig_lop(o, hs),
        match kjort(o, hs).1 {
            Handling::Enkod { .. } => h is Kjort,
            Handling::SeStorrelse => h is Storrelse,
            Handling::SeLengde => h is Lengde,
            Handling::Slett => h is Slettet,
            Handling::Les => h is Lest,
            Handling::Send => h is Sendt,
            Handling::Ferdig(_) => false,
        },
    ensures
        mulig(kjort(o, hs).0, h),
{
    if hs.len() > 0 {
        let t = kjort(o, hs.drop_last()).0;
        assert(kjort(o, hs) == neste(o, t, hs.last()));
    }
}

/// A result that was large enough is read where its length is right or could not be found,
/// and is deleted where it was found to be too short.
pub proof fn lengden_avgjor(o: Oppgave, i: usize, storrelse: u64, lang_nok: Option<bool>)
    requires
        storrelse > 10_000,
        o.kilde_kjent,
    ensures
        lang_nok != Some(false) <==> neste(
            o,
            Trinn::Lengde { i, storrelse },
            Hendelse::Lengde(lang_nok),
        ).1 == Handling::Les,
        lang_nok == Some(false) <==> neste(
            o,
            Trinn::Lengde { i, storrelse },
            Hendelse::Lengde(lang_nok),
        ).1 == Handling::Slett,
{
}

} // verus!
