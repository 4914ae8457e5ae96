//! Line, word and byte counts.

use kumo_userland::wc::{count, report, Counter, Counts, LINE_ROOM};

#[test]
fn counts_empty_input() {
    assert_eq!(count(b""), Counts::default());
}

#[test]
fn counts_lines_words_and_bytes() {
    assert_eq!(
        count(b"hello world\nfoo\n"),
        Counts {
            lines: 2,
            words: 3,
            bytes: 16,
        }
    );
}

#[test]
fn counts_without_trailing_newline_have_zero_lines() {
    assert_eq!(
        count(b"a b c"),
        Counts {
            lines: 0,
            words: 3,
            bytes: 5,
        }
    );
}

#[test]
fn counts_collapse_whitespace_runs() {
    assert_eq!(
        count(b"  a   b  \n"),
        Counts {
            lines: 1,
            words: 2,
            bytes: 10,
        }
    );
}

#[test]
fn counter_keeps_word_continuity_across_feeds() {
    // "hello world\n" split mid-word must still count two words, not three.
    let mut counter = Counter::new();
    counter.feed(b"hel");
    counter.feed(b"lo wo");
    counter.feed(b"rld\n");
    assert_eq!(
        counter.counts(),
        Counts {
            lines: 1,
            words: 2,
            bytes: 12,
        }
    );
}

#[test]
fn every_ascii_whitespace_byte_separates_words() {
    assert_eq!(
        count(b"a\tb\x0cc\rd e\x0bf"),
        Counts {
            lines: 0,
            words: 5,
            bytes: 11,
        }
    );
}

#[test]
fn the_report_is_cut_at_its_buffer() {
    let counts = count(b"hello world\nfoo\n");
    assert_eq!(report(counts, b"etc/motd"), b"2 3 16 etc/motd\n");
    assert_eq!(report(counts, &[b'x'; 200]).len(), LINE_ROOM);
}
