use telegram_bridge::approver::{
    build_buttons, build_prompt, timeout_notice, ApprovalDecision, ApprovalFlow, ApprovalReply,
    ApprovalRequest, ApprovalStage, ApprovalStep, Pending, WaitOutcome,
};

#[test]
fn parse_callback_data_allows() {
    let (reply, req_id) = ApprovalReply::parse_callback_data("tool:allow:abc123");
    assert_eq!(reply, ApprovalReply::Allow);
    assert_eq!(req_id, Some("abc123".to_string()));
}

#[test]
fn parse_callback_data_denies() {
    let (reply, req_id) = ApprovalReply::parse_callback_data("tool:deny:def456");
    assert_eq!(reply, ApprovalReply::Deny);
    assert_eq!(req_id, Some("def456".to_string()));
}

#[test]
fn parse_callback_data_deny_session() {
    let (reply, req_id) = ApprovalReply::parse_callback_data("tool:session:ghi789");
    assert_eq!(reply, ApprovalReply::DenyForSession);
    assert_eq!(req_id, Some("ghi789".to_string()));
}

#[test]
fn parse_callback_data_unrecognised() {
    let (reply, req_id) = ApprovalReply::parse_callback_data("garbage");
    assert_eq!(reply, ApprovalReply::Unrecognised);
    assert_eq!(req_id, None);
}

#[test]
fn pending_has_any_tracks_correctly() {
    let mut pending: Pending<u32> = Pending::new();
    assert!(!pending.has_any());
    pending.insert("test".to_string(), 7);
    assert!(pending.has_any());
}

fn request(tool: &str, input: &str) -> ApprovalRequest {
    ApprovalRequest { tool_name: tool.to_string(), input_json: input.to_string() }
}

#[test]
fn parse_accepts_short_shapes_and_synonyms() {
    assert_eq!(
        ApprovalReply::parse_callback_data("yes:r1"),
        (ApprovalReply::Allow, Some("r1".to_string()))
    );
    assert_eq!(ApprovalReply::parse_callback_data("reject"), (ApprovalReply::Deny, None));
    assert_eq!(
        ApprovalReply::parse_callback_data("tool:allow_session:z"),
        (ApprovalReply::AllowForSession, Some("z".to_string()))
    );
    assert_eq!(
        ApprovalReply::parse_callback_data("allow session:q"),
        (ApprovalReply::AllowForSession, Some("q".to_string()))
    );
    assert_eq!(ApprovalReply::parse_callback_data("no"), (ApprovalReply::Deny, None));
    assert_eq!(ApprovalReply::parse_callback_data("approve"), (ApprovalReply::Allow, None));
}

#[test]
fn parse_lowercases_the_verb() {
    assert_eq!(
        ApprovalReply::parse_callback_data("tool:ALLOW:abc"),
        (ApprovalReply::Allow, Some("abc".to_string()))
    );
    assert_eq!(ApprovalReply::parse_callback_data("Session:x").0, ApprovalReply::DenyForSession);
}

#[test]
fn parse_rejects_other_shapes() {
    // Three pieces that do not start with "tool" carry nothing.
    assert_eq!(ApprovalReply::parse_callback_data("x:allow:id"), (ApprovalReply::Unrecognised, None));
    // Four pieces carry nothing.
    assert_eq!(ApprovalReply::parse_callback_data("tool:allow:a:b"), (ApprovalReply::Unrecognised, None));
    // An unknown verb keeps its id.
    assert_eq!(
        ApprovalReply::parse_callback_data("tool:maybe:id9"),
        (ApprovalReply::Unrecognised, Some("id9".to_string()))
    );
    assert_eq!(ApprovalReply::parse_callback_data(""), (ApprovalReply::Unrecognised, None));
    assert_eq!(
        ApprovalReply::parse_callback_data("allow:"),
        (ApprovalReply::Allow, Some(String::new()))
    );
}

#[test]
fn classify_verb_table() {
    assert_eq!(ApprovalReply::classify_verb("allow"), ApprovalReply::Allow);
    assert_eq!(ApprovalReply::classify_verb("allow_session"), ApprovalReply::AllowForSession);
    assert_eq!(ApprovalReply::classify_verb("deny"), ApprovalReply::Deny);
    assert_eq!(ApprovalReply::classify_verb("session"), ApprovalReply::DenyForSession);
    assert_eq!(ApprovalReply::classify_verb("ALLOW"), ApprovalReply::Unrecognised);
}

#[test]
fn reply_decisions() {
    assert_eq!(ApprovalReply::Allow.decision(), Some(ApprovalDecision::Allow));
    assert_eq!(ApprovalReply::AllowForSession.decision(), Some(ApprovalDecision::AllowForSession));
    assert_eq!(ApprovalReply::Deny.decision(), Some(ApprovalDecision::Deny));
    assert_eq!(ApprovalReply::DenyForSession.decision(), Some(ApprovalDecision::Deny));
    assert_eq!(ApprovalReply::Unrecognised.decision(), None);
}

#[test]
fn resolve_callback_takes_the_request_once() {
    let mut pending: Pending<u32> = Pending::new();
    pending.insert("r1".to_string(), 5);
    pending.insert("r2".to_string(), 6);
    // An unrecognised verb resolves nothing and keeps the request.
    assert!(pending.resolve_callback("tool:maybe:r1").is_none());
    assert_eq!(pending.resolve_callback("tool:deny:r1"), Some((ApprovalDecision::Deny, 5)));
    // A late second reply resolves nothing.
    assert!(pending.resolve_callback("tool:allow:r1").is_none());
    assert!(pending.has_any());
    assert_eq!(pending.resolve_callback("tool:allow_session:r2"), Some((ApprovalDecision::AllowForSession, 6)));
    assert!(!pending.has_any());
}

#[test]
fn take_by_id_and_replacement() {
    let mut pending: Pending<&str> = Pending::new();
    pending.insert("a".to_string(), "first");
    pending.insert("a".to_string(), "second");
    assert_eq!(pending.take_by_id("b"), None);
    assert_eq!(pending.take_by_id("a"), Some("second"));
    assert_eq!(pending.take_by_id("a"), None);
    assert!(!pending.has_any());
}

#[test]
fn buttons_round_trip_through_parse() {
    let keyboard = build_buttons("req-1");
    let rows = &keyboard.inline_keyboard;
    assert_eq!(rows.len(), 3);
    assert_eq!(rows[0].len(), 2);
    assert_eq!(rows[0][0].text, "\u{2705} Approve");
    assert_eq!(rows[0][1].text, "\u{2705}\u{2705} Allow Session");
    assert_eq!(rows[1][0].text, "\u{1F6AB} Deny");
    assert_eq!(rows[2][0].text, "\u{23F8} Deny for Session");
    let expected = [
        (0, 0, ApprovalReply::Allow),
        (0, 1, ApprovalReply::AllowForSession),
        (1, 0, ApprovalReply::Deny),
        (2, 0, ApprovalReply::DenyForSession),
    ];
    for (r, c, reply) in expected {
        let data = rows[r][c].callback_data.clone().unwrap();
        assert_eq!(ApprovalReply::parse_callback_data(&data), (reply, Some("req-1".to_string())));
        assert!(rows[r][c].url.is_none());
    }
    assert_eq!(rows[0][0].callback_data.as_deref(), Some("tool:allow:req-1"));
}

#[test]
fn prompt_text_with_and_without_input() {
    let p = build_prompt(&request("Bash", "{\"command\":\"ls\"}"));
    assert_eq!(
        p,
        "\u{1F527} **Tool Approval Required**\n\n**Tool:** `Bash`\n**Input:** `{\"command\":\"ls\"}`\n\nTap a button below to approve or deny."
    );
    let q = build_prompt(&request("Read", ""));
    assert_eq!(q, "\u{1F527} **Tool Approval Required**\n\n**Tool:** `Read`\nTap a button below to approve or deny.");
}

#[test]
fn prompt_preview_stops_at_200_chars() {
    let input: String = "\u{e9}".repeat(250);
    let p = build_prompt(&request("Write", &input));
    let preview: String = "\u{e9}".repeat(200);
    assert!(p.contains(&format!("**Input:** `{}`\n\n", preview)));
    assert!(!p.contains(&"\u{e9}".repeat(201)));
}

#[test]
fn timeout_notice_text() {
    let n = timeout_notice("Bash", 42);
    assert_eq!(n.chat_id, 42);
    assert_eq!(n.text, "\u{23F0} Approval for `Bash` timed out; auto-denied.");
    assert_eq!(n.parse_mode.as_deref(), Some("Markdown"));
    assert!(n.reply_markup.is_none());
}

#[test]
fn approval_flow_prompt_and_reply() {
    let mut pending: Pending<u8> = Pending::new();
    let mut flow = ApprovalFlow::begin(&mut pending, 1, request("Bash", "{}"));
    let id = flow.request_id().to_string();
    assert_eq!(id.len(), 36);
    assert!(id.chars().all(|c| c.is_ascii_hexdigit() || c == '-'));
    assert!(pending.has_any());
    assert_eq!(flow.current_stage(), ApprovalStage::Registered);
    match flow.on_prompt_target(&mut pending, Some(77)) {
        ApprovalStep::SendPrompt(m) => {
            assert_eq!(m.chat_id, 77);
            assert_eq!(m.parse_mode.as_deref(), Some("Markdown"));
            let k = m.reply_markup.unwrap();
            assert_eq!(k.inline_keyboard[1][0].callback_data, Some(format!("tool:deny:{}", id)));
        }
        other => panic!("unexpected step {:?}", other),
    }
    assert!(matches!(flow.on_prompt_sent(&mut pending, true), ApprovalStep::AwaitReply));
    // The reply arrives through the callback and resolves the request.
    let resolved = pending.resolve_callback(&format!("tool:allow:{}", id));
    assert_eq!(resolved, Some((ApprovalDecision::Allow, 1)));
    let step = flow.on_wait_outcome(&mut pending, WaitOutcome::Replied(ApprovalDecision::Allow));
    assert!(matches!(step, ApprovalStep::Finish(ApprovalDecision::Allow)));
    assert_eq!(flow.current_stage(), ApprovalStage::Decided(ApprovalDecision::Allow));
    assert!(!pending.has_any());
}

#[test]
fn approval_flow_denies_without_chat_or_on_failure() {
    let mut pending: Pending<u8> = Pending::new();
    let mut flow = ApprovalFlow::begin(&mut pending, 1, request("Bash", "{}"));
    assert!(pending.has_any());
    assert!(matches!(flow.on_prompt_target(&mut pending, None), ApprovalStep::Finish(ApprovalDecision::Deny)));
    // Nothing waits for a reply any more.
    assert!(!pending.has_any());
    assert_eq!(flow.current_stage(), ApprovalStage::Decided(ApprovalDecision::Deny));

    let mut pending: Pending<u8> = Pending::new();
    let mut flow = ApprovalFlow::begin(&mut pending, 2, request("Bash", "{}"));
    let _ = flow.on_prompt_target(&mut pending, Some(1));
    assert!(matches!(flow.on_prompt_sent(&mut pending, false), ApprovalStep::Finish(ApprovalDecision::Deny)));
    assert!(!pending.has_any());
}

#[test]
fn approval_flow_timeout_drops_the_request() {
    let mut pending: Pending<u8> = Pending::new();
    let mut flow = ApprovalFlow::begin(&mut pending, 3, request("Bash", "{}"));
    let id = flow.request_id().to_string();
    let _ = flow.on_prompt_target(&mut pending, Some(1));
    let _ = flow.on_prompt_sent(&mut pending, true);
    let step = flow.on_wait_outcome(&mut pending, WaitOutcome::TimedOut);
    assert!(matches!(step, ApprovalStep::NotifyTimeout));
    assert_eq!(flow.current_stage(), ApprovalStage::Decided(ApprovalDecision::Deny));
    assert!(!pending.has_any());
    // A late reply resolves nothing.
    assert!(pending.resolve_callback(&format!("tool:allow:{}", id)).is_none());
}

#[test]
fn approval_flow_closed_channel_denies() {
    let mut pending: Pending<u8> = Pending::new();
    let mut flow = ApprovalFlow::begin(&mut pending, 3, request("Bash", "{}"));
    let _ = flow.on_prompt_target(&mut pending, Some(1));
    let _ = flow.on_prompt_sent(&mut pending, true);
    let step = flow.on_wait_outcome(&mut pending, WaitOutcome::Closed);
    assert!(matches!(step, ApprovalStep::Finish(ApprovalDecision::Deny)));
    assert!(!pending.has_any());
}

#[test]
fn two_flows_get_distinct_ids() {
    let mut pending: Pending<u8> = Pending::new();
    let a = ApprovalFlow::begin(&mut pending, 1, request("A", ""));
    let b = ApprovalFlow::begin(&mut pending, 2, request("B", ""));
    assert_ne!(a.request_id(), b.request_id());
    assert_eq!(a.request().tool_name, "A");
}

#[test]
fn parse_non_ascii_verbs() {
    assert_eq!(
        ApprovalReply::parse_callback_data("tool:D\u{c9}NY:x"),
        (ApprovalReply::Unrecognised, Some("x".to_string()))
    );
    assert_eq!(ApprovalReply::parse_callback_data("DENY").0, ApprovalReply::Deny);
}
