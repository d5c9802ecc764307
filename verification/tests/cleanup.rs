use bridge_core::jsonclean::cleanup_json_string_newlines;

#[test]
fn test_cleanup_json_string_newlines() {
    let json_str = r#"[{"id":"call_qSoLU7GYixJU7OLXKJxGdBGz","type":"function","function":{"name":"sfai_provide_text_result","arguments":"{\n\"text\": \"In Vue 3, the 'ref' keyword is used in the composition API to create \\\"reac\ntive\\\" references. While regular JavaScript variables won't be reactive inside Vue's templating system, `ref` creates a reactive and mutable object that can be used to keep track of changes in your Vue component. \n\nA ref is defined as follows:\n```javascript\nimport { ref } from 'vue'\n\nconst myVar = ref('initial value')\n```\nYou would access a ref value with `.value`:\n```javascript\nconsole.log(myVar.value)\n```\n\nOne practical example is if we wanted a button click to increment a counter:\n```javascript\nimport { ref } from 'vue'\n\nconst counter = ref(0)\n\n// In your method\nconst increment = () => {\n  counter.value += 1\n}\n\nexport default {\n  setup() {\n    return { counter , increment }\n  }\n}\n```\nIn this scenario, anytime `counter.value` is updated, Vue.js would be aware of the changes and re-render as needed. 'ref' is useful to track stateful values throughout your Vue application.\",\n\"is_done\": true\n} \n"}}]"#;
    let tool_calls: serde_json::Value =
        serde_json::from_str(json_str).expect("Failed to parse tool call");
    let arguments = tool_calls[0]["function"]["arguments"]
        .as_str()
        .expect("Failed to parse tool call")
        .to_string();

    let expected = r#"{"text": "In Vue 3, the 'ref' keyword is used in the composition API to create \"reac\ntive\" references. While regular JavaScript variables won't be reactive inside Vue's templating system, `ref` creates a reactive and mutable object that can be used to keep track of changes in your Vue component. \n\nA ref is defined as follows:\n```javascript\nimport { ref } from 'vue'\n\nconst myVar = ref('initial value')\n```\nYou would access a ref value with `.value`:\n```javascript\nconsole.log(myVar.value)\n```\n\nOne practical example is if we wanted a button click to increment a counter:\n```javascript\nimport { ref } from 'vue'\n\nconst counter = ref(0)\n\n// In your method\nconst increment = () => {\n  counter.value += 1\n}\n\nexport default {\n  setup() {\n    return { counter , increment }\n  }\n}\n```\nIn this scenario, anytime `counter.value` is updated, Vue.js would be aware of the changes and re-render as needed. 'ref' is useful to track stateful values throughout your Vue application.","is_done": true}"#;

    assert_eq!(cleanup_json_string_newlines(&arguments), expected);
}

#[test]
fn cleanup_is_idempotent_on_samples() {
    let samples = [
        "{\n\"a\": \"x\ny\"\n}",
        "  {\"a\": 1}\n",
        "\"no newlines at all\"",
        "{\"s\": \"already \\\"quoted\\\"\nvalue\"}",
        "",
    ];
    for s in samples {
        let once = cleanup_json_string_newlines(s);
        let twice = cleanup_json_string_newlines(&once);
        assert_eq!(once, twice);
    }
}

#[test]
fn cleanup_escapes_newline_inside_string() {
    assert_eq!(
        cleanup_json_string_newlines("{\"a\": \"x\ny\"}"),
        "{\"a\": \"x\\ny\"}"
    );
}

#[test]
fn cleanup_drops_newline_outside_strings() {
    assert_eq!(
        cleanup_json_string_newlines("{\n\"a\": 1,\n\"b\": 2\n}"),
        "{\"a\": 1,\"b\": 2}"
    );
}

#[test]
fn cleanup_keeps_other_characters_and_trims() {
    assert_eq!(cleanup_json_string_newlines("  {\"a\": 1} \t"), "{\"a\": 1}");
    assert_eq!(cleanup_json_string_newlines("plain text"), "plain text");
}

#[test]
fn cleanup_escaped_quote_does_not_close_string() {
    // the quote after the backslash stays inside the string, so the
    // following newline is escaped, not dropped
    assert_eq!(
        cleanup_json_string_newlines("{\"a\": \"x\\\"\ny\"}"),
        "{\"a\": \"x\\\"\\ny\"}"
    );
}
