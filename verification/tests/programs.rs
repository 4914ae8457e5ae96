//! The small programs.

use kumo_userland::abi::Handle;
use kumo_userland::programs::{
    argument_line, choose_path, close_is_proved, failure_message, fmt_dec_right, listing_line,
    sink, table_length, Failure, Sink, Stretch, READ_CHUNK, TABLE_ROOM,
};
use kumo_userland::wc::{Counter, Counts};

#[test]
fn output_goes_to_the_granted_channel() {
    assert_eq!(sink(None), Sink::Debug);
    assert_eq!(sink(Some(Handle(0))), Sink::Debug);
    assert_eq!(sink(Some(Handle(5))), Sink::Channel(Handle(5)));
}

#[test]
fn arguments_are_numbered_by_their_last_digit() {
    assert_eq!(argument_line(0, b"args"), b"argv[0] = args\n");
    assert_eq!(argument_line(12, b""), b"argv[2] = \n");
}

#[test]
fn a_close_is_proved_by_a_refused_read() {
    assert!(close_is_proved(0, 1));
    assert!(!close_is_proved(0, 0));
    assert!(!close_is_proved(-1, 1));
}

#[test]
fn sizes_are_right_aligned_and_keep_their_low_digits() {
    let mut field = *b"      ";
    fmt_dec_right(42, &mut field);
    assert_eq!(&field, b"    42");
    let mut narrow = *b"...";
    fmt_dec_right(98765, &mut narrow);
    assert_eq!(&narrow, b"765");
    assert_eq!(listing_line(0, b"bin/ls"), b"         0  bin/ls\n");
    assert_eq!(listing_line(1234567, b"a"), b"   1234567  a\n");
}

#[test]
fn failures_name_the_program() {
    let expected: [(Failure, &[u8]); 8] = [
        (Failure::ArgvRead, b"cat: argv read fail\n"),
        (Failure::Usage, b"usage: cat <path>\n"),
        (Failure::BadPath, b"cat: bad path\n"),
        (Failure::InitrdRead, b"cat: initrd read fail\n"),
        (Failure::TableTooLarge, b"cat: table too large\n"),
        (Failure::BadInitrd, b"cat: bad initrd\n"),
        (Failure::NotFound, b"cat: not found\n"),
        (Failure::FileRead, b"cat: file read fail\n"),
    ];
    for (failure, message) in expected {
        assert_eq!(failure_message("cat", failure), message);
    }
    assert_eq!(failure_message("wc", Failure::Usage), b"usage: wc <path>\n");
}

#[test]
fn exactly_one_path_is_taken() {
    let one = vec![b"cat".to_vec(), b"etc/motd".to_vec()];
    assert_eq!(choose_path(&one), Ok(&b"etc/motd".to_vec()));
    assert_eq!(choose_path(&vec![]), Err(Failure::Usage));
    assert_eq!(choose_path(&vec![b"cat".to_vec()]), Err(Failure::Usage));
    let two = vec![b"cat".to_vec(), b"a".to_vec(), b"b".to_vec()];
    assert_eq!(choose_path(&two), Err(Failure::Usage));
    let bytes = vec![b"cat".to_vec(), vec![0xff, 0xfe]];
    assert_eq!(choose_path(&bytes), Err(Failure::BadPath));
}

#[test]
fn tables_must_fit_their_buffer() {
    assert_eq!(table_length(Some(TABLE_ROOM)), Ok(TABLE_ROOM));
    assert_eq!(table_length(Some(TABLE_ROOM + 1)), Err(Failure::TableTooLarge));
    assert_eq!(table_length(None), Err(Failure::BadInitrd));
}

#[test]
fn a_stretch_is_read_whole_and_in_order() {
    let image: Vec<u8> = (0..1000u32).map(|i| (i % 251) as u8).collect();
    let mut stretch = Stretch {
        offset: 100,
        remaining: 600,
    };
    let mut read = Vec::new();
    let mut parts = 0;
    while let Some((at, len)) = stretch.advance() {
        assert!(1 <= len && len <= READ_CHUNK);
        read.extend_from_slice(&image[at as usize..at as usize + len]);
        parts += 1;
    }
    assert_eq!(read, &image[100..700]);
    assert_eq!(parts, 3);
    assert_eq!(stretch.advance(), None);
}

#[test]
fn the_table_is_read_behind_its_header() {
    assert_eq!(
        Stretch::table(96),
        Stretch {
            offset: 16,
            remaining: 80
        }
    );
    assert_eq!(Stretch::table(10).advance(), None);
}

#[test]
fn counting_in_parts_is_counting_whole() {
    let text = b"one two\nthree  four\n\nfive";
    for cut in 0..text.len() {
        let mut counter = Counter::new();
        counter.feed(&text[..cut]);
        counter.feed(&text[cut..]);
        assert_eq!(
            counter.counts(),
            Counts {
                lines: 3,
                words: 5,
                bytes: 25
            }
        );
    }
}
