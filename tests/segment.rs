use storyteller::segment::{find_break, BreakPolicy, Segmenter};

fn budget(max_chars: usize) -> BreakPolicy {
    BreakPolicy::Budgeted { max_chars }
}

fn push_all(seg: &mut Segmenter, tokens: &[&str]) -> Vec<String> {
    let mut out = Vec::new();
    for t in tokens {
        out.extend(seg.push(t));
    }
    out
}

#[test]
fn marked_breaks_at_first_marker() {
    assert_eq!(find_break("Hello.~ World~", BreakPolicy::Marked), Some(6));
    assert_eq!(find_break("line one\nline two", BreakPolicy::Marked), Some(8));
    assert_eq!(find_break("no marker. here.", BreakPolicy::Marked), None);
    assert_eq!(find_break("", BreakPolicy::Marked), None);
}

#[test]
fn budgeted_breaks_at_last_terminator() {
    assert_eq!(find_break("One. Two? Three", budget(100)), Some(8));
    assert_eq!(find_break("no terminator here", budget(100)), None);
    assert_eq!(find_break("Wow!", budget(100)), Some(3));
}

#[test]
fn budget_counts_characters_not_bytes() {
    // Each 'é' is two bytes but one character.
    assert_eq!(find_break("éé. é", budget(5)), Some(2));
}

#[test]
fn threshold_forces_hard_cut_without_space() {
    let mut seg = Segmenter::new(budget(10));
    let out = seg.push("abcdefghijklmnop. more text");
    assert_eq!(out, vec!["abcdefghij".to_string(), "klmnop.".to_string()]);
    for u in &out {
        assert!(u.chars().count() <= 10);
    }
    assert_eq!(seg.flush(), " more text");
}

#[test]
fn threshold_breaks_at_last_space() {
    assert_eq!(find_break("abc def ghijkl", budget(10)), Some(7));
    let mut seg = Segmenter::new(budget(10));
    let out = seg.push("abc def ghijkl");
    assert_eq!(out, vec!["abc def ".to_string()]);
    assert_eq!(seg.flush(), "ghijkl");
}

#[test]
fn forced_break_prefers_secondary_punctuation() {
    // No terminator in the window, a comma and a later " and ".
    let text = "one, two and three four five";
    assert_eq!(find_break(text, budget(20)), Some(3));
}

#[test]
fn forced_break_falls_back_to_and() {
    let text = "cats and dogs and birds fly";
    // The last space of the first 20 characters ends "cats and dogs and ", so
    // the last " and " starts at 13.
    assert_eq!(find_break(text, budget(20)), Some(13));
    assert_eq!(find_break("cats and dogs or birds fly", budget(20)), Some(4));
}

#[test]
fn forced_break_prefers_terminator() {
    let text = "Yes, sir. I will go there now";
    assert_eq!(find_break(text, budget(20)), Some(8));
}

#[test]
fn end_to_end_two_utterances() {
    let mut seg = Segmenter::new(budget(1000));
    let mut out = push_all(&mut seg, &["Once", " upon", " a time.", " The End."]);
    let rest = seg.flush();
    if !rest.trim().is_empty() {
        out.push(rest);
    }
    assert_eq!(out, vec!["Once upon a time.".to_string(), " The End.".to_string()]);
}

#[test]
fn segmentation_is_lossless() {
    let tokens = ["It was a dark", " night, and the", " wind howled! Then", "\nsilence", " fell, slowly"];
    for policy in [budget(8), budget(15), budget(1000), BreakPolicy::Marked, BreakPolicy::FirstTerminator] {
        let mut seg = Segmenter::new(policy);
        let mut joined = push_all(&mut seg, &tokens).concat();
        joined.push_str(&seg.flush());
        assert_eq!(joined, tokens.concat());
    }
}

#[test]
fn flush_of_empty_buffer_is_empty() {
    let mut seg = Segmenter::new(budget(100));
    assert_eq!(seg.flush(), "");
    assert_eq!(seg.flush(), "");
    let mut seg = Segmenter::new(BreakPolicy::Marked);
    assert!(seg.push("Done.~").len() == 1);
    assert_eq!(seg.flush(), "");
}

#[test]
fn marked_policy_emits_each_marked_sentence() {
    let mut seg = Segmenter::new(BreakPolicy::Marked);
    let out = push_all(&mut seg, &["Hi", " there.~ How", " are you?~", " Fine"]);
    assert_eq!(out, vec!["Hi there.~".to_string(), " How are you?~".to_string()]);
    assert_eq!(seg.flush(), " Fine");
}

#[test]
fn forced_break_finds_and_ending_on_last_space() {
    assert_eq!(find_break("xx and yyyyyyy", budget(10)), Some(2));
    let mut seg = Segmenter::new(budget(10));
    let out = seg.push("xx and yyyyyyy");
    assert_eq!(out, vec!["xx ".to_string(), "and ".to_string()]);
    assert_eq!(seg.flush(), "yyyyyyy");
}

#[test]
fn first_terminator_breaks_early() {
    assert_eq!(find_break("Hi. There! x", BreakPolicy::FirstTerminator), Some(2));
    assert_eq!(find_break("no end", BreakPolicy::FirstTerminator), None);
    let mut seg = Segmenter::new(BreakPolicy::FirstTerminator);
    let out = push_all(&mut seg, &["Hi", ". There!", " Bye"]);
    assert_eq!(out, vec!["Hi.".to_string(), " There!".to_string()]);
    assert_eq!(seg.flush(), " Bye");
}

#[test]
fn flush_stays_within_budget() {
    let mut seg = Segmenter::new(budget(12));
    let out = push_all(&mut seg, &["one two three four five six seven", " eight"]);
    for u in &out {
        assert!(u.chars().count() <= 12);
    }
    assert!(seg.flush().chars().count() <= 12);
}
