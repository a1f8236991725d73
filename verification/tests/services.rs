use voicecmd::services::{
    completion_text, generation_request_body, select_audio_file, transcript_text,
};

const PROMPT: &str = "You are a helpful assistant. You are precise and concise. You are are Linux user, and provide responses commands, to be executed directly in the terminal (with some random animation from cowsay for a dragon or similar, but avoid unsafe commands like rm, rm -rf, rmdir, cp, chmod). The command needs to be enclosed in ```bash``` tags. REMEMBER that the enclosed ```bash``` tags is important for the command to be found with regex.";

#[test]
fn transcript_text_reads_the_text_field() {
    let body = "{\"text\":\"turn on the lights\"}";
    assert_eq!(transcript_text(body).unwrap(), "turn on the lights");
}

#[test]
fn transcript_text_rejects_invalid_json() {
    assert!(transcript_text("not json at all").is_err());
}

#[test]
fn transcript_text_rejects_missing_field() {
    assert!(transcript_text("{\"other\":\"value\"}").is_err());
    assert!(transcript_text("{\"text\":5}").is_err());
}

#[test]
fn completion_text_reads_the_nested_field() {
    let body = "{\"choices\":[{\"message\":{\"content\":\"run ls\"}}]}";
    assert_eq!(completion_text(body).unwrap(), "run ls");
}

#[test]
fn completion_text_rejects_invalid_json() {
    assert!(completion_text("{{{").is_err());
}

#[test]
fn completion_text_rejects_missing_field() {
    assert!(completion_text("{\"choices\":[]}").is_err());
    assert!(completion_text("{\"choices\":[{\"message\":{}}]}").is_err());
}

#[test]
fn generation_request_body_is_the_expected_json() {
    let user = "say \"hi\" to me";
    let body = generation_request_body(user);
    let expected = format!(
        "{{\"model\":\"gpt-4o-mini\",\"messages\":[{{\"role\":\"system\",\"content\":{}}},{{\"role\":\"user\",\"content\":{}}}]}}",
        serde_json::to_string(PROMPT).unwrap(),
        serde_json::to_string(user).unwrap(),
    );
    assert_eq!(body, expected);
}

#[test]
fn generation_request_body_escapes_the_user_message() {
    let body = generation_request_body("say \"hi\"");
    assert!(body.contains("say \\\"hi\\\""));
    let parsed: serde_json::Value = serde_json::from_str(&body).unwrap();
    assert_eq!(parsed["model"], serde_json::Value::String("gpt-4o-mini".to_string()));
    assert_eq!(
        parsed["messages"][1]["content"],
        serde_json::Value::String("say \"hi\"".to_string())
    );
}

#[test]
fn select_audio_file_records_unless_example_is_asked() {
    let live = String::from("false");
    assert_eq!(select_audio_file(&live), (true, "real_audio.wav"));
    let example = String::from("true");
    assert_eq!(select_audio_file(&example), (false, "test_audio.mp3"));
}
