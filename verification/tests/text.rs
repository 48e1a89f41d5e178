use efi::{FormatError, SimpleTextOutput, WriteStep, MAX_BIT};

/// Writes a string to a console that answers with the given status codes, and
/// then with success. Returns the buffers that it was given, and the result.
fn write(s: &str, replies: &[usize]) -> (Vec<[u16; 128]>, Result<(), usize>) {
    let output = SimpleTextOutput::new(0x1000);
    let mut write = output.write_str(s);
    let mut calls = Vec::new();
    let mut reply = None;
    loop {
        match write.step(reply) {
            WriteStep::Output => {
                let (out, buffer) = write.arguments();
                assert_eq!(out, 0x1000);
                reply = Some(replies.get(calls.len()).copied().unwrap_or(0));
                calls.push(*buffer);
            }
            WriteStep::Done(result) => return (calls, result),
        }
    }
}

/// What a console displays of the buffers.
fn displayed(calls: &[[u16; 128]]) -> Vec<u16> {
    let mut units = Vec::new();
    for call in calls {
        units.extend(call.iter().copied().take_while(|unit| *unit != 0));
    }
    units
}

fn numbered(n: u16) -> String {
    (0..n).map(|i| char::from_u32(0x100 + i as u32).unwrap()).collect()
}

#[test]
fn an_empty_string_makes_no_call() {
    assert_eq!(write("", &[]), (vec![], Ok(())));
}

#[test]
fn a_short_string_takes_one_call() {
    let (calls, result) = write("Hi!", &[]);
    assert_eq!(result, Ok(()));
    assert_eq!(calls.len(), 1);
    assert_eq!(calls[0][..4], [0x48, 0x69, 0x21, 0]);
    assert!(calls[0][4..].iter().all(|unit| *unit == 0));
}

#[test]
fn a_full_chunk_takes_one_call() {
    let text = numbered(127);
    let (calls, result) = write(&text, &[]);
    assert_eq!(result, Ok(()));
    assert_eq!(calls.len(), 1);
    assert_eq!(calls[0][126], 0x17e);
    assert_eq!(calls[0][127], 0);
}

#[test]
fn a_longer_string_is_split() {
    let text = numbered(128);
    let (calls, result) = write(&text, &[]);
    assert_eq!(result, Ok(()));
    assert_eq!(calls.len(), 2);
    assert_eq!(calls[1][..2], [0x17f, 0]);
    // The buffer still holds the first chunk behind the terminator
    assert_eq!(calls[1][2], 0x102);
    assert_eq!(calls[1][126], 0x17e);
}

#[test]
fn the_console_displays_the_whole_text() {
    let text = numbered(300);
    let (calls, result) = write(&text, &[]);
    assert_eq!(result, Ok(()));
    assert_eq!(calls.len(), 3);
    let expected: Vec<u16> = (0..300).map(|i| 0x100 + i).collect();
    assert_eq!(displayed(&calls), expected);
}

#[test]
fn characters_are_cut_to_ucs2() {
    let (calls, _) = write("\u{20ac}\u{1f600}", &[]);
    assert_eq!(calls[0][..3], [0x20ac, 0xf600, 0]);
}

#[test]
fn a_zero_unit_ends_what_is_displayed() {
    let (calls, result) = write("a\u{10000}b", &[]);
    assert_eq!(result, Ok(()));
    assert_eq!(calls[0][..4], [0x61, 0, 0x62, 0]);
    assert_eq!(displayed(&calls), [0x61]);
}

#[test]
fn warnings_do_not_stop_a_write() {
    let (calls, result) = write(&numbered(200), &[1, 2]);
    assert_eq!(result, Ok(()));
    assert_eq!(calls.len(), 2);
}

#[test]
fn the_first_error_stops_a_write() {
    let error = MAX_BIT | 7;
    let (calls, result) = write(&numbered(400), &[0, error, MAX_BIT | 8]);
    assert_eq!(result, Err(error));
    assert_eq!(calls.len(), 2);
    let expected: Vec<u16> = (0..254).map(|i| 0x100 + i).collect();
    assert_eq!(displayed(&calls), expected);
}

#[test]
fn an_error_on_the_last_call_fails_the_write() {
    let (calls, result) = write("x", &[MAX_BIT]);
    assert_eq!(result, Err(MAX_BIT));
    assert_eq!(calls.len(), 1);
}

#[test]
fn a_formatted_write_without_pieces_succeeds() {
    let output = SimpleTextOutput::new(8);
    assert_eq!(output.write_fmt().finish(), Ok(()));
}

#[test]
fn a_formatted_write_returns_the_error_of_the_failed_piece() {
    let output = SimpleTextOutput::new(8);
    let mut writer = output.write_fmt();
    assert_eq!(writer.wrote(Ok(())), Ok(()));
    assert_eq!(writer.wrote(Err(MAX_BIT | 3)), Err(FormatError));
    assert_eq!(writer.finish(), Err(MAX_BIT | 3));
}

#[test]
fn a_formatted_write_returns_the_last_result() {
    let output = SimpleTextOutput::new(8);
    let mut writer = output.write_fmt();
    assert_eq!(writer.wrote(Err(MAX_BIT)), Err(FormatError));
    assert_eq!(writer.wrote(Ok(())), Ok(()));
    assert_eq!(writer.finish(), Ok(()));
}

#[test]
fn the_pieces_of_a_formatted_write_go_to_its_output() {
    let output = SimpleTextOutput::new(8);
    let writer = output.write_fmt();
    let mut write = writer.write_str("ok");
    assert!(write.step(None) == WriteStep::Output);
    let (out, buffer) = write.arguments();
    assert_eq!(out, 8);
    assert_eq!(buffer[..3], [0x6f, 0x6b, 0]);
}

#[test]
fn the_pieces_of_a_formatted_write_are_displayed_as_one_text() {
    let pieces = [numbered(200), String::from("!"), String::new(), numbered(127)];
    let output = SimpleTextOutput::new(0x1000);
    let mut writer = output.write_fmt();
    let mut calls = Vec::new();
    for piece in &pieces {
        let (more, result) = write(piece, &[]);
        calls.extend(more);
        assert_eq!(writer.wrote(result), Ok(()));
    }
    assert_eq!(writer.finish(), Ok(()));
    assert_eq!(calls.len(), 4);
    let expected: Vec<u16> = pieces.concat().chars().map(|c| c as u16).collect();
    assert_eq!(displayed(&calls), expected);
}

#[test]
fn a_failed_piece_is_displayed_as_far_as_it_was_sent() {
    let (mut calls, first) = write("ab", &[]);
    let (more, last) = write(&numbered(300), &[0, MAX_BIT]);
    assert_eq!((first, last), (Ok(()), Err(MAX_BIT)));
    calls.extend(more);
    let mut expected = vec![0x61, 0x62];
    expected.extend((0..254).map(|i| 0x100 + i));
    assert_eq!(displayed(&calls), expected);
}
