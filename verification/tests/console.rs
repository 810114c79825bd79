use color_eyre::owo_colors::OwoColorize;
use num_format::{Locale, ToFormattedString};
use screencast::console::align_right;
use screencast::runner::{Progress, Rate, Status};

/// The line as the two crates and `format` write it.
fn reference_line(p: &Progress) -> String {
    let mut out = format!("{}", &p.status.to_string().yellow());
    if let Some(frame) = p.frame {
        out += &format!(" frame: {:>8}", frame.to_string().green());
    }
    if let Some(total_size) = p.total_size {
        out += &format!(" total_size: {:>12}", total_size.to_formatted_string(&Locale::en).yellow());
    }
    if let Some(dup_frames) = p.dup_frames {
        if dup_frames != 1 {
            out += &format!(" dup_frames: {}", dup_frames.to_string().green());
        }
    }
    if let Some(drop_frames) = p.drop_frames {
        if drop_frames > 0 {
            out += &format!(" drop_frames: {}", drop_frames.to_string().green());
        }
    }
    out
}

#[test]
fn aligns_to_the_right() {
    assert_eq!(align_right("10", 8), "      10");
    assert_eq!(align_right("", 3), "   ");
    assert_eq!(align_right("12345678", 8), "12345678");
    assert_eq!(align_right("123456789", 8), "123456789");
    assert_eq!(align_right("x", 0), "x");
    assert_eq!(align_right("\u{e9}\u{e9}", 4), "  \u{e9}\u{e9}");
    for text in ["", "1", "1,234", "123456789012"] {
        assert_eq!(align_right(text, 12), format!("{:>12}", text));
    }
}

#[test]
fn an_empty_record_shows_its_status() {
    assert_eq!(Progress::default().print_info(), "\u{1b}[33mC\u{1b}[39m");
    let ended = Progress { status: Status::End, ..Progress::default() };
    assert_eq!(ended.print_info(), "\u{1b}[33mE\u{1b}[39m");
}

#[test]
fn shows_the_frame_in_green() {
    let p = Progress { frame: Some(10), ..Progress::default() };
    assert_eq!(
        p.print_info(),
        "\u{1b}[33mC\u{1b}[39m frame: \u{1b}[32m      10\u{1b}[39m"
    );
}

#[test]
fn shows_the_size_in_groups_of_three() {
    let p = Progress { total_size: Some(1234567), ..Progress::default() };
    assert_eq!(
        p.print_info(),
        "\u{1b}[33mC\u{1b}[39m total_size: \u{1b}[33m   1,234,567\u{1b}[39m"
    );
    let p = Progress { total_size: Some(999), ..Progress::default() };
    assert_eq!(
        p.print_info(),
        "\u{1b}[33mC\u{1b}[39m total_size: \u{1b}[33m         999\u{1b}[39m"
    );
    let p = Progress { total_size: Some(1000), ..Progress::default() };
    assert_eq!(
        p.print_info(),
        "\u{1b}[33mC\u{1b}[39m total_size: \u{1b}[33m       1,000\u{1b}[39m"
    );
    let p = Progress { total_size: Some(u64::MAX), ..Progress::default() };
    assert_eq!(
        p.print_info(),
        "\u{1b}[33mC\u{1b}[39m total_size: \u{1b}[33m18,446,744,073,709,551,615\u{1b}[39m"
    );
}

#[test]
fn hides_a_single_duplicate_and_no_drops() {
    let p = Progress { dup_frames: Some(1), drop_frames: Some(0), ..Progress::default() };
    assert_eq!(p.print_info(), "\u{1b}[33mC\u{1b}[39m");
    let p = Progress { dup_frames: Some(0), drop_frames: Some(2), ..Progress::default() };
    assert_eq!(
        p.print_info(),
        "\u{1b}[33mC\u{1b}[39m dup_frames: \u{1b}[32m0\u{1b}[39m drop_frames: \u{1b}[32m2\u{1b}[39m"
    );
}

#[test]
fn leaves_the_readings_to_the_caller() {
    let p = Progress {
        fps: Some(Rate { bits: 25.0f64.to_bits() }),
        speed: Some(Rate { bits: 1.02f64.to_bits() }),
        out_time: Some(1_000_000),
        ..Progress::default()
    };
    assert_eq!(p.print_info(), "\u{1b}[33mC\u{1b}[39m");
}

#[test]
fn writes_the_line_as_the_crates_do() {
    let values = [None, Some(0u64), Some(1), Some(7), Some(999), Some(1000), Some(123456), Some(99999999), Some(100000000), Some(1234567890123), Some(u64::MAX)];
    for status in [Status::Continue, Status::End] {
        for frame in values {
            for total_size in values {
                for dup_frames in [None, Some(0u64), Some(1), Some(2)] {
                    for drop_frames in [None, Some(0u64), Some(1), Some(30)] {
                        let p = Progress {
                            frame,
                            total_size,
                            dup_frames,
                            drop_frames,
                            status,
                            ..Progress::default()
                        };
                        assert_eq!(p.print_info(), reference_line(&p), "record {:?}", p);
                    }
                }
            }
        }
    }
}
