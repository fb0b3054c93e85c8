use lingchat::json::JsonValue;
use lingchat::media::{detect_mime_type, silence_wav};
use lingchat::types::normalize_tool_args;

fn obj(pairs: Vec<(&str, JsonValue)>) -> JsonValue {
    JsonValue::Object(pairs.into_iter().map(|(k, x)| (k.to_string(), x)).collect())
}

fn is_empty_object(v: &JsonValue) -> bool {
    matches!(v, JsonValue::Object(m) if m.is_empty())
}

#[test]
fn mime_types_follow_the_last_extension() {
    assert_eq!(detect_mime_type("/a/b/Photo.JPG"), "image/jpeg");
    assert_eq!(detect_mime_type("voice.tar.WAV"), "audio/wav");
    assert_eq!(detect_mime_type("x.svg"), "image/svg+xml");
    assert_eq!(detect_mime_type("x.tiff"), "image/tiff");
    assert_eq!(detect_mime_type("png"), "image/png");
    assert_eq!(detect_mime_type("archive.zip"), "application/octet-stream");
    assert_eq!(detect_mime_type("noext."), "application/octet-stream");
}

#[test]
fn silence_is_a_valid_wav_header_and_zeros() {
    let wav = silence_wav(16000);
    assert_eq!(wav.len(), 44 + 32000);
    assert_eq!(&wav[0..4], b"RIFF");
    assert_eq!(&wav[4..8], &(36u32 + 32000).to_le_bytes());
    assert_eq!(&wav[8..16], b"WAVEfmt ");
    assert_eq!(&wav[16..20], &16u32.to_le_bytes());
    assert_eq!(&wav[20..22], &1u16.to_le_bytes());
    assert_eq!(&wav[22..24], &1u16.to_le_bytes());
    assert_eq!(&wav[24..28], &16000u32.to_le_bytes());
    assert_eq!(&wav[28..32], &32000u32.to_le_bytes());
    assert_eq!(&wav[32..34], &2u16.to_le_bytes());
    assert_eq!(&wav[34..36], &16u16.to_le_bytes());
    assert_eq!(&wav[36..40], b"data");
    assert_eq!(&wav[40..44], &32000u32.to_le_bytes());
    assert!(wav[44..].iter().all(|b| *b == 0));
    assert_eq!(silence_wav(0).len(), 44);
}

#[test]
fn tool_arguments_are_normalised() {
    let inner = obj(vec![("q", JsonValue::Str("x".to_string()))]);
    let wrapped = obj(vec![("arguments", obj(vec![("q", JsonValue::Str("x".to_string()))]))]);
    match normalize_tool_args(Some(wrapped), None) {
        JsonValue::Object(m) => assert_eq!(m[0].0, "q"),
        _ => panic!("not unwrapped"),
    }
    let params = obj(vec![("params", obj(vec![("a", JsonValue::Bool(true))]))]);
    match normalize_tool_args(Some(params), None) {
        JsonValue::Object(m) => assert_eq!(m[0].0, "a"),
        _ => panic!("not unwrapped"),
    }
    let double = JsonValue::Str("{\"q\":\"x\"}".to_string());
    match normalize_tool_args(Some(double), Some(inner)) {
        JsonValue::Object(m) => assert_eq!(m[0].0, "q"),
        _ => panic!("double encoding not read"),
    }
    assert!(is_empty_object(&normalize_tool_args(None, None)));
    assert!(is_empty_object(&normalize_tool_args(Some(JsonValue::Array(vec![])), None)));
    assert!(is_empty_object(&normalize_tool_args(Some(JsonValue::Str("oops".to_string())), None)));
    let not_object = obj(vec![("arguments", JsonValue::Str("x".to_string()))]);
    match normalize_tool_args(Some(not_object), None) {
        JsonValue::Object(m) => assert_eq!(m[0].0, "arguments"),
        _ => panic!("kept object lost"),
    }
}
