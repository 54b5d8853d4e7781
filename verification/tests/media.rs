use rawskap_transfer::media::{
    bilde_url, er_video, info_args, klippinfo, mime_fra, parse_dim, parse_varighet, poster_args,
    poster_navn, sprite_antall, sprite_args, sprite_filter, sprite_navn, video_info,
};

const STDERR: &str = "Input #0, mov, from 'a.mov':\n  Duration: 00:01:02.50, start: 0.0\n  \
    Stream #0:0: Audio: 16x16\n  Stream #0:1[0x1]: Video: h264 (avc1), yuv420p, 1920x1080 [SAR 1:1]\r\n";

#[test]
fn mimetyper() {
    assert_eq!(mime_fra("a.JPG"), "image/jpeg");
    assert_eq!(mime_fra("a.jpeg"), "image/jpeg");
    assert_eq!(mime_fra("a.tiff"), "image/tiff");
    assert_eq!(mime_fra("a.cr3"), "image/x-canon-cr3");
    assert_eq!(mime_fra("a.mov"), "video/quicktime");
    assert_eq!(mime_fra("mp4"), "video/mp4");
    assert_eq!(mime_fra("a.mxf"), "application/mxf");
    assert_eq!(mime_fra("a"), "application/octet-stream");
}

#[test]
fn video_kjennes_paa_navnet() {
    assert!(er_video("a.MP4") && er_video("a.mov") && er_video("b.MXF"));
    assert!(!er_video("a.jpg") && !er_video("mxf"));
}

#[test]
fn maalene_leses_av_videolinja() {
    assert_eq!(parse_dim(STDERR), (1920, 1080));
    assert_eq!(parse_dim("Video: h264, 15x900, 16x16"), (16, 16));
    assert_eq!(parse_dim("Audio: 1920x1080"), (0, 0));
    assert_eq!(parse_dim("Video: 99999999999x1080 +640x+480"), (640, 480));
    assert_eq!(parse_dim(""), (0, 0));
}

#[test]
fn varigheten_deles_i_ord() {
    assert_eq!(parse_varighet(STDERR), Some(vec!["00".into(), "01".into(), "02.50".into()]));
    assert_eq!(parse_varighet("Duration: N/A, start"), Some(vec!["N/A".into()]));
    assert_eq!(parse_varighet("Duration:  1 : 2 "), Some(vec!["1".into(), "2".into()]));
    assert_eq!(parse_varighet("ingen"), None);
}

#[test]
fn antall_bilder_holdes_innenfor() {
    assert_eq!(sprite_antall(0), 12);
    assert_eq!(sprite_antall(30), 30);
    assert_eq!(sprite_antall(1000), 48);
}

#[test]
fn ffmpegs_argumenter() {
    assert_eq!(info_args("/a"), vec!["-hide_banner", "-i", "/a"]);
    assert_eq!(
        poster_args("1.00", "/a", "/t.jpg").join(" "),
        "-hide_banner -loglevel error -y -ss 1.00 -i /a -frames:v 1 -vf scale='min(1280,iw)':-2 -q:v 4 /t.jpg"
    );
    let vf = sprite_filter("0.500000", 12);
    assert_eq!(vf, "fps=0.500000,scale=-2:200,tile=12x1");
    assert_eq!(
        sprite_args(&vf, "/a", "/s.jpg").join(" "),
        "-hide_banner -loglevel error -y -i /a -vf fps=0.500000,scale=-2:200,tile=12x1 -frames:v 1 -q:v 5 /s.jpg"
    );
    assert_eq!(poster_navn(7), "rawskap-poster-7.jpg");
    assert_eq!(sprite_navn(7), "rawskap-sprite-7.jpg");
}

#[test]
fn bildet_blir_adresse() {
    assert_eq!(bilde_url(&vec![0; 1000]), None);
    let foran = "data:image/jpeg;base64,";
    assert_eq!(bilde_url(&vec![0; 1001]).unwrap(), format!("{foran}{}=", "A".repeat(1335)));
    assert_eq!(bilde_url(&vec![255; 1002]).unwrap(), format!("{foran}{}", "////".repeat(334)));
    let mut b = vec![0u8; 1001];
    b.extend_from_slice(b"Ma");
    assert_eq!(bilde_url(&b).unwrap(), format!("{foran}{}AABNYQ==", "A".repeat(1332)));
}

#[test]
fn funnene_om_et_klipp() {
    let b = video_info(STDERR, &Some(vec![0; 2000]), &Some(vec![0; 5]), 12);
    assert_eq!((b.bredde, b.hoyde), (1920, 1080));
    assert!(b.poster.is_some() && b.sprite.is_none());
    assert_eq!(b.frames, 0);
    let b = video_info("", &None, &Some(vec![0; 2000]), 12);
    assert_eq!((b.bredde, b.frames), (0, 12));
    assert!(b.poster.is_none() && b.sprite.is_some());
}

#[test]
fn bildene_folger_sekundene() {
    let jpg = Some(vec![0; 2000]);
    for (sek, n) in [(1, 12), (12, 12), (30, 30), (48, 48), (3600, 48)] {
        let b = klippinfo(STDERR, &jpg, &jpg, Some(sek));
        assert_eq!((b.bredde, b.hoyde, b.frames), (1920, 1080, n));
        assert!(b.poster.is_some() && b.sprite.is_some());
    }
    let b = klippinfo(STDERR, &jpg, &jpg, None);
    assert!(b.poster.is_some() && b.sprite.is_none());
    assert_eq!(b.frames, 0);
    let b = klippinfo(STDERR, &None, &Some(vec![0; 5]), Some(30));
    assert!(b.sprite.is_none());
    assert_eq!(b.frames, 0);
}
