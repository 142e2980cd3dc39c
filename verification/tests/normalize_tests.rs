use rustdoc_text::normalize::clean_markdown;

#[test]
fn collapses_long_runs_to_two() {
    assert_eq!(clean_markdown("a\n\n\n\nb"), "a\n\nb");
    assert_eq!(clean_markdown("a\n\n\nb"), "a\n\nb");
    assert_eq!(clean_markdown("\n\n\n\n\n"), "\n\n");
}

#[test]
fn preserves_runs_of_one_and_two() {
    assert_eq!(clean_markdown("a\nb"), "a\nb");
    assert_eq!(clean_markdown("a\n\nb\nc"), "a\n\nb\nc");
    assert_eq!(clean_markdown(""), "");
    assert_eq!(clean_markdown("plain text"), "plain text");
}

#[test]
fn idempotent_on_samples() {
    let samples = [
        "",
        "a",
        "\n\n\n\n",
        "x\n\n\n\ny\nz\n\n\n",
        "  lead\n\n\n\ttab\n\n\n\n\nend",
    ];
    for s in samples {
        let once = clean_markdown(s);
        let twice = clean_markdown(&once);
        assert_eq!(twice, once);
    }
}

#[test]
fn keeps_non_newline_content_verbatim() {
    let input = "alpha\n\n\n\nbeta\n\n\n\n\ngamma";
    let out = clean_markdown(input);
    let content_in: String = input.chars().filter(|c| *c != '\n').collect();
    let content_out: String = out.chars().filter(|c| *c != '\n').collect();
    assert_eq!(content_in, content_out);
    assert!(!out.contains("\n\n\n"));
}

#[test]
fn collapse_of_segments_joined_by_long_runs() {
    let input = ["one", "two", "three"].join("\n\n\n\n\n");
    let out = clean_markdown(&input);
    assert_eq!(out, "one\n\ntwo\n\nthree");
}
