use glyph_atlas::chat::{
    chat_lines, feed, keep_refused, login, ChatMessage, CHANNEL, CHAT_PATTERN,
};

fn parsed(line: &str) -> Option<(String, String)> {
    ChatMessage::parse(line.to_string()).map(|m| (m.sender, m.message))
}

fn pair(sender: &str, message: &str) -> Option<(String, String)> {
    Some((sender.to_string(), message.to_string()))
}

#[test]
fn pattern_and_channel() {
    assert_eq!(CHAT_PATTERN, ":([^:]+)![^:]+:(.+)");
    assert_eq!(CHANNEL, "#bnans");
}

#[test]
fn message_is_shown_as_sender_colon_text() {
    let m = ChatMessage { sender: "ann".to_string(), message: "hello there".to_string() };
    assert_eq!(m.string(), "ann: hello there");
    let empty = ChatMessage { sender: String::new(), message: String::new() };
    assert_eq!(empty.string(), ": ");
    let wide = ChatMessage { sender: "zoë".to_string(), message: "grüße: ✓".to_string() };
    assert_eq!(wide.string(), "zoë: grüße: ✓");
}

#[test]
fn chat_line_is_parsed() {
    assert_eq!(
        parsed(":ann!ann@ann.tmi.twitch.tv PRIVMSG #bnans :hello there"),
        pair("ann", "hello there")
    );
}

#[test]
fn text_may_hold_colons_and_marks() {
    assert_eq!(
        parsed(":bob!bob@host PRIVMSG #bnans :see: this! now"),
        pair("bob", "see: this! now")
    );
}

#[test]
fn sender_runs_to_the_last_mark_before_the_colon() {
    assert_eq!(parsed(":a!b!c@host PRIVMSG #x :hi"), pair("a!b", "hi"));
}

#[test]
fn match_may_start_inside_the_line() {
    assert_eq!(parsed("@tags=1 :ann!ann@host PRIVMSG #x :hi"), pair("ann", "hi"));
    assert_eq!(parsed("::ann!u@h :hi"), pair("ann", "hi"));
}

#[test]
fn text_ends_at_a_line_feed() {
    assert_eq!(parsed(":ann!u@h PRIVMSG #x :one\ntwo"), pair("ann", "one"));
}

#[test]
fn lines_of_another_form_are_no_messages() {
    assert_eq!(parsed(""), None);
    assert_eq!(parsed("PING :tmi.twitch.tv"), None);
    assert_eq!(parsed(":tmi.twitch.tv 001 ann :Welcome, GLHF!"), None);
    assert_eq!(parsed(":ann!u@h PRIVMSG #x :"), None);
    assert_eq!(parsed(":!u@h PRIVMSG #x :hi"), None);
    assert_eq!(parsed(":ann!:hi"), None);
    assert_eq!(parsed("ann!u@h PRIVMSG #x hi"), None);
}

#[test]
fn groups_of_a_match_give_the_message() {
    let groups = |g: [Option<&str>; 3]| -> Option<Vec<Option<String>>> {
        Some(g.iter().map(|s| s.map(|t| t.to_string())).collect())
    };
    let m = ChatMessage::from_captures(groups([Some(":a!b:c"), Some("a"), Some("c")])).unwrap();
    assert_eq!((m.sender.as_str(), m.message.as_str()), ("a", "c"));
    let m = ChatMessage::from_captures(groups([None, Some("a"), Some("c")])).unwrap();
    assert_eq!((m.sender.as_str(), m.message.as_str()), ("a", "c"));
    assert!(ChatMessage::from_captures(groups([Some("x"), None, Some("c")])).is_none());
    assert!(ChatMessage::from_captures(groups([Some("x"), Some("a"), None])).is_none());
}

#[test]
fn too_few_groups_give_no_message() {
    assert!(ChatMessage::from_captures(None).is_none());
    assert!(ChatMessage::from_captures(Some(Vec::new())).is_none());
    let two = vec![Some("x".to_string()), Some("a".to_string())];
    assert!(ChatMessage::from_captures(Some(two)).is_none());
}

#[test]
fn further_groups_are_passed_over() {
    let four: Vec<Option<String>> =
        ["w", "a", "c", "d"].iter().map(|s| Some(s.to_string())).collect();
    let m = ChatMessage::from_captures(Some(four)).unwrap();
    assert_eq!((m.sender.as_str(), m.message.as_str()), ("a", "c"));
}

#[test]
fn each_chat_message_of_a_text_gives_a_line() {
    let text = ":ann!u@h PRIVMSG #x :one\r\n:bob!u@h PRIVMSG #x :two\r\n";
    assert_eq!(chat_lines(text), vec!["ann: one".to_string(), "bob: two".to_string()]);
}

#[test]
fn empty_and_other_lines_are_dropped() {
    let text = "\r\n\r\nPING :tmi.twitch.tv\r\n:ann!u@h PRIVMSG #x :one\r\n\r\n:tmi 001 :hi\r\n\
                :bob!u@h PRIVMSG #x :two";
    assert_eq!(chat_lines(text), vec!["ann: one".to_string(), "bob: two".to_string()]);
    assert_eq!(chat_lines(""), Vec::<String>::new());
    assert_eq!(chat_lines("\r\n"), Vec::<String>::new());
    assert_eq!(chat_lines("PING"), Vec::<String>::new());
}

#[test]
fn only_a_carriage_return_with_a_line_feed_ends_a_line() {
    // A lone carriage return belongs to the text, a lone line feed ends the
    // text of the message but not the line.
    assert_eq!(chat_lines(":ann!u@h :one\rtwo\r\n"), vec!["ann: one\rtwo".to_string()]);
    assert_eq!(
        chat_lines(":ann!u@h :one\n:bob!u@h :two\r\n:cy!u@h :three"),
        vec!["ann: one".to_string(), "cy: three".to_string()]
    );
    assert_eq!(chat_lines(":ann!u@h :one\r\r\n"), vec!["ann: one\r".to_string()]);
}

#[test]
fn lines_with_wide_characters_are_cut_at_characters() {
    let text = ":zoë!u@h PRIVMSG #x :grüße ✓\r\n:ann!u@h PRIVMSG #x :ok";
    assert_eq!(chat_lines(text), vec!["zoë: grüße ✓".to_string(), "ann: ok".to_string()]);
}

#[test]
fn login_sends_password_nickname_and_channel() {
    assert_eq!(
        login("oauth:abc", "ann"),
        vec!["PASS oauth:abc".to_string(), "NICK ann".to_string(), "JOIN #bnans".to_string()]
    );
    assert_eq!(
        login("", ""),
        vec!["PASS ".to_string(), "NICK ".to_string(), "JOIN #bnans".to_string()]
    );
}

#[test]
fn lines_go_to_the_queue_until_it_is_full() {
    let (mut writer, mut reader) = ringbuf::RingBuffer::<String>::new(2).split();
    let text = ":a!u@h :one\r\n:b!u@h :two\r\nPING\r\n:c!u@h :three\r\n:d!u@h :four";
    let refused = feed(text, &mut writer);
    assert_eq!(refused, vec!["c: three".to_string(), "d: four".to_string()]);
    assert_eq!(reader.pop(), Some("a: one".to_string()));
    assert_eq!(reader.pop(), Some("b: two".to_string()));
    assert_eq!(reader.pop(), None);

    // With room again the queue takes what comes next.
    assert_eq!(feed(":e!u@h :five", &mut writer), Vec::<String>::new());
    assert_eq!(reader.pop(), Some("e: five".to_string()));
}

#[test]
fn text_without_messages_leaves_the_queue_alone() {
    let (mut writer, mut reader) = ringbuf::RingBuffer::<String>::new(1).split();
    assert_eq!(feed("PING :tmi.twitch.tv\r\n\r\n", &mut writer), Vec::<String>::new());
    assert_eq!(reader.pop(), None);
}

#[test]
fn queue_keeps_what_was_written_before() {
    let (mut writer, mut reader) = ringbuf::RingBuffer::<String>::new(3).split();
    assert_eq!(feed(":a!u@h :one", &mut writer), Vec::<String>::new());
    let refused = feed(":b!u@h :two\r\n:c!u@h :three\r\n:d!u@h :four", &mut writer);
    assert_eq!(refused, vec!["d: four".to_string()]);
    let mut read: Vec<String> = Vec::new();
    while let Some(line) = reader.pop() {
        read.push(line);
    }
    assert_eq!(read, vec!["a: one".to_string(), "b: two".to_string(), "c: three".to_string()]);
}

#[test]
fn line_that_was_handed_back_is_kept() {
    let mut refused = vec!["a: one".to_string()];
    keep_refused(Ok(()), &mut refused);
    assert_eq!(refused, vec!["a: one".to_string()]);
    keep_refused(Err("b: two".to_string()), &mut refused);
    assert_eq!(refused, vec!["a: one".to_string(), "b: two".to_string()]);
    keep_refused(Err(String::new()), &mut refused);
    assert_eq!(refused, vec!["a: one".to_string(), "b: two".to_string(), String::new()]);
}
