use ffmfrog::coords::{VideoDim, VideoPos, VideoRect};
use ffmfrog::ffmpeg::{
    parse_index_text, resolve_arguments, resolve_word_tokens, resolve_words, tokenize_word,
    ParseError, ResolveError, Token,
};
use ffmfrog::markers::{
    NamedPreset, RectDrag, RectDragStatus, RectMarker, SourceMarkers, Text, TimeSpan,
    TimespanMarker, VideoOutPreset,
};

fn micros(seconds: f64) -> u64 {
    (seconds * 1e6).round() as u64
}

fn test_markers() -> SourceMarkers {
    SourceMarkers {
        rects: vec![RectMarker {
            rect: VideoRect { pos: VideoPos::new(0, 0), dim: VideoDim::new(100, 100) },
            name: "0".into(),
        }],
        timespans: vec![TimespanMarker {
            timespan: TimeSpan { begin: micros(10.0), end: micros(20.0) },
            name: "0".into(),
        }],
    }
}

fn test_presets() -> Vec<NamedPreset> {
    vec![NamedPreset {
        name: "custom".into(),
        preset: VideoOutPreset {
            desc: String::new(),
            codec: Some("h265".into()),
            pix_fmt: Some("yuv420p".into()),
        },
    }]
}

fn strings(v: &[&str]) -> Vec<String> {
    v.iter().map(|s| s.to_string()).collect()
}

fn kinds(tokens: &[Token]) -> Vec<String> {
    tokens
        .iter()
        .map(|t| match t {
            Token::Raw(s) => format!("raw:{s}"),
            Token::SubsRect(s) => format!("rect:{s}"),
            Token::SubsTimespan(s) => format!("span:{s}"),
            Token::SubsText { idx } => format!("text:{idx}"),
            Token::SubsInput => "input".to_string(),
            Token::SubsVoPreset(s) => format!("preset:{s}"),
        })
        .collect()
}

#[test]
fn test_resolve() {
    let test_texts = Vec::new();
    let test_markers = test_markers();
    let presets = test_presets();
    assert_eq!(
        resolve_arguments(
            "-i {i} {t.0} crop={r.0} {v.custom}",
            &test_markers,
            &test_texts,
            "/home/my_video.mp4",
            &presets
        )
        .ok()
        .unwrap(),
        vec![
            "-i".to_string(),
            "/home/my_video.mp4".to_string(),
            "-ss".to_string(),
            "10".to_string(),
            "-t".to_string(),
            "10".to_string(),
            "crop=100:100:0:0".to_string(),
            "-pix_fmt".to_string(),
            "yuv420p".to_string(),
            "-c:v".to_string(),
            "h265".to_string()
        ]
    );
}

#[test]
fn words_are_split_as_a_shell_does() {
    let markers = test_markers();
    let out = resolve_arguments(
        "-metadata 'title=my {i}' \"a b\"\\ c  plain",
        &markers,
        &Vec::new(),
        "in.mp4",
        &Vec::new(),
    );
    assert_eq!(out.ok().unwrap(), strings(&["-metadata", "title=my in.mp4", "a b c", "plain"]));
    let empty = resolve_arguments("   ", &markers, &Vec::new(), "in.mp4", &Vec::new());
    assert_eq!(empty.ok().unwrap(), Vec::<String>::new());
}

#[test]
fn an_open_quote_is_an_error() {
    let markers = test_markers();
    let out = resolve_arguments("-i 'open", &markers, &Vec::new(), "in.mp4", &Vec::new());
    assert!(matches!(out, Err(ResolveError::ShellParseError)));
}

#[test]
fn words_become_tokens() {
    let t = tokenize_word("crop={r.main}:x{t.a}{i}{v.fast}end").ok().unwrap();
    assert_eq!(
        kinds(&t),
        strings(&["raw:crop=", "rect:main", "raw::x", "span:a", "input", "preset:fast", "raw:end"])
    );
    assert_eq!(kinds(&tokenize_word("plain").ok().unwrap()), strings(&["raw:plain"]));
    assert_eq!(kinds(&tokenize_word("").ok().unwrap()), Vec::<String>::new());
    assert_eq!(kinds(&tokenize_word("{x.12}").ok().unwrap()), strings(&["text:12"]));
    assert_eq!(kinds(&tokenize_word("{x.+3}").ok().unwrap()), strings(&["text:3"]));
    assert_eq!(kinds(&tokenize_word("{ignored}").ok().unwrap()), strings(&["input"]));
    assert_eq!(kinds(&tokenize_word("{rxx.n}").ok().unwrap()), strings(&["rect:n"]));
    assert_eq!(kinds(&tokenize_word("{r.}").ok().unwrap()), strings(&["rect:"]));
    assert_eq!(kinds(&tokenize_word("漢{r.字}語").ok().unwrap()), strings(&["raw:漢", "rect:字", "raw:語"]));
    assert_eq!(kinds(&tokenize_word("a}b").ok().unwrap()), strings(&["raw:a}b"]));
}

#[test]
fn malformed_words_are_refused() {
    assert!(matches!(tokenize_word("{q.x}"), Err(ParseError::UnexpectedToken)));
    assert!(matches!(tokenize_word("{}"), Err(ParseError::UnexpectedToken)));
    assert!(matches!(tokenize_word("{"), Err(ParseError::UnexpectedEnd)));
    assert!(matches!(tokenize_word("{r"), Err(ParseError::UnexpectedEnd)));
    assert!(matches!(tokenize_word("{r.name"), Err(ParseError::UnexpectedEnd)));
    assert!(matches!(tokenize_word("a{i"), Err(ParseError::UnexpectedEnd)));
    assert!(matches!(tokenize_word("{x.one}"), Err(ParseError::InvalidIndex { text }) if text == "one"));
    assert!(matches!(tokenize_word("{x.}"), Err(ParseError::InvalidIndex { text }) if text.is_empty()));
    assert!(matches!(tokenize_word("{x.-1}"), Err(ParseError::InvalidIndex { .. })));
    assert!(matches!(
        tokenize_word("{x.99999999999999999999999999}"),
        Err(ParseError::InvalidIndex { .. })
    ));
}

#[test]
fn indices() {
    assert_eq!(parse_index_text("0"), Some(0));
    assert_eq!(parse_index_text("0042"), Some(42));
    assert_eq!(parse_index_text("+7"), Some(7));
    assert_eq!(parse_index_text(&usize::MAX.to_string()), Some(usize::MAX));
    assert_eq!(parse_index_text("+"), None);
    assert_eq!(parse_index_text(""), None);
    assert_eq!(parse_index_text("1 "), None);
    assert_eq!(parse_index_text("++1"), None);
    assert_eq!(parse_index_text("340282366920938463463374607431768211456"), None);
}

#[test]
fn missing_items_are_named() {
    let markers = test_markers();
    let presets = test_presets();
    let none = Vec::new();
    for (word, name) in [("{r.nope}", "nope"), ("{t.1}", "1"), ("{v.slow}", "slow"), ("{x.4}", "4")] {
        let out = resolve_words(&strings(&[word]), &markers, &none, "in.mp4", &presets);
        assert!(matches!(out, Err(ResolveError::MissingItem { name: n }) if n == name), "{word}");
    }
    let out = resolve_words(&strings(&["ok", "{z}", "{r.nope}"]), &markers, &none, "in", &presets);
    assert!(matches!(out, Err(ResolveError::Parse(ParseError::UnexpectedToken))));
}

#[test]
fn whole_arguments_come_before_the_one_put_together() {
    let markers = test_markers();
    let out = resolve_word_tokens(
        &vec![
            Token::Raw("a=".to_string()),
            Token::SubsTimespan("0".to_string()),
            Token::SubsRect("0".to_string()),
        ],
        &markers,
        &Vec::new(),
        "in.mp4",
        &Vec::new(),
    );
    assert_eq!(out.ok().unwrap(), strings(&["-ss", "10", "-t", "10", "a=100:100:0:0"]));
}

#[test]
fn spans_and_texts_are_written_in_seconds() {
    let markers = SourceMarkers {
        rects: Vec::new(),
        timespans: vec![
            TimespanMarker { timespan: TimeSpan { begin: micros(1.5), end: micros(4.0) }, name: "a".into() },
            TimespanMarker { timespan: TimeSpan { begin: micros(4.0), end: micros(1.5) }, name: "b".into() },
            TimespanMarker { timespan: TimeSpan { begin: 0, end: 1 }, name: "a".into() },
        ],
    };
    let texts = vec![Text {
        string: "Sample text".into(),
        pos: VideoPos::new(3, 4),
        timespan: TimeSpan { begin: micros(0.0), end: micros(100.0) },
        size: 16,
        borderw: 2,
        font_path: "/f.ttf".into(),
    }];
    let out = resolve_words(&strings(&["{t.a}", "{t.b}", "-vf", "{x.0}"]), &markers, &texts, "in", &Vec::new());
    assert_eq!(
        out.ok().unwrap(),
        strings(&[
            "-ss", "1.5", "-t", "2.5", "-ss", "4", "-t", "-2.5", "-vf",
            "drawtext=text=Sample text: x=3: y=4: fontcolor=white: enable='between(t,0,100)': fontfile=/f.ttf: fontsize=16: borderw=2: ",
        ])
    );
}

#[test]
fn presets_give_what_they_hold() {
    let presets = vec![
        NamedPreset { name: "p".into(), preset: VideoOutPreset { desc: "d".into(), codec: None, pix_fmt: Some("gray".into()) } },
        NamedPreset { name: "c".into(), preset: VideoOutPreset { desc: String::new(), codec: Some("vp9".into()), pix_fmt: None } },
        NamedPreset { name: "e".into(), preset: VideoOutPreset { desc: String::new(), codec: None, pix_fmt: None } },
    ];
    let markers = SourceMarkers::default();
    let out = resolve_words(&strings(&["{v.p}", "{v.c}", "{v.e}", "x"]), &markers, &Vec::new(), "in", &presets);
    assert_eq!(out.ok().unwrap(), strings(&["-pix_fmt", "gray", "-c:v", "vp9", "x"]));
}

#[test]
fn spans_and_drags() {
    let span = TimeSpan { begin: 10, end: 20 };
    assert!(span.contains(10));
    assert!(span.contains(19));
    assert!(!span.contains(20));
    assert!(!span.contains(9));
    assert!(!TimeSpan { begin: 5, end: 5 }.contains(5));
    let drag = RectDrag::new(3);
    assert_eq!(drag.idx, 3);
    assert_eq!(drag.status, RectDragStatus::Init);
}
