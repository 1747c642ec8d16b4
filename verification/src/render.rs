//! The status line: load figures in the color of their tier, the identity of
//! the machine, the weekday label and the time of day.

use crate::clock::{clock_text, days_from_sunday, english_weekday, second_of_day, Timestamp};
use crate::decimal::is_decimal;
use crate::loadavg::{first_three_fields, lemma_fields_are_words, split_loadavg};
use crate::percent::percent_of;
use crate::text::{lemma_one_line_joined, one_line};
use crate::tier::{load_color, tier_of};
use crate::weekday::{label_of, weekday_label};
use vstd::prelude::*;

verus! {

/// Why a load-average line cannot be rendered.
#[derive(Clone, Copy, Debug, PartialEq, Eq)]
pub enum LoadError {
    /// The line holds fewer than three space-separated fields.
    TooFewFields,
    /// The 1-minute field is no unsigned decimal number.
    NotANumber,
}

/// The status markup around its seven fields: foreground color, the three
/// load figures, a fixed foreground for the identity, then the weekday label
/// and the clock in bold, closed by a space.
pub open spec fn status_line(
    color: Seq<char>,
    load1: Seq<char>,
    load5: Seq<char>,
    load15: Seq<char>,
    identity: Seq<char>,
    weekday: Seq<char>,
    clock: Seq<char>,
) -> Seq<char> {
    "#[fg="@ + color + "]"@ + load1 + " "@ + load5 + " "@ + load15 + " #[fg=#E6E4D9]"@ + identity
        + " #[bold]"@ + weekday + " "@ + clock + " "@
}

/// Sets the seven fields into the status markup.
pub fn format_status(
    color: &str,
    load1: &str,
    load5: &str,
    load15: &str,
    identity: &str,
    weekday: &str,
    clock: &str,
) -> (line: String)
    ensures
        line@ == status_line(color@, load1@, load5@, load15@, identity@, weekday@, clock@),
{
    let mut line = String::from_str("#[fg=");
    line.append(color);
    line.append("]");
    line.append(load1);
    line.append(" ");
    line.append(load5);
    line.append(" ");
    line.append(load15);
    line.append(" #[fg=#E6E4D9]");
    line.append(identity);
    line.append(" #[bold]");
    line.append(weekday);
    line.append(" ");
    line.append(clock);
    line.append(" ");
    line
}

/// The status line of a clock reading, a CPU count, an identity and the three
/// load fields, the first of which is a decimal number.
pub open spec fn rendered(
    local: int,
    cpus: int,
    identity: Seq<char>,
    load1: Seq<char>,
    load5: Seq<char>,
    load15: Seq<char>,
) -> Seq<char> {
    status_line(
        tier_of(percent_of(load1, cpus)).markup(),
        load1,
        load5,
        load15,
        identity,
        label_of(english_weekday(days_from_sunday(local))),
        clock_text(second_of_day(local)),
    )
}

/// The markup, the color names, the weekday labels and the clock hold no
/// line break: a status line is a single line wherever the identity and the
/// load fields that it shows are.
pub proof fn lemma_rendered_is_one_line(
    local: int,
    cpus: int,
    identity: Seq<char>,
    load1: Seq<char>,
    load5: Seq<char>,
    load15: Seq<char>,
)
    requires
        one_line(identity),
        one_line(load1),
        one_line(load5),
        one_line(load15),
    ensures
        one_line(rendered(local, cpus, identity, load1, load5, load15)),
{
    let color = tier_of(percent_of(load1, cpus)).markup();
    let weekday = label_of(english_weekday(days_from_sunday(local)));
    let clock = clock_text(second_of_day(local));
    assert(one_line(color)) by {
        reveal_strlit("green");
        reveal_strlit("white");
        reveal_strlit("blue");
        reveal_strlit("cyan");
        reveal_strlit("yellow");
        reveal_strlit("magenta");
        reveal_strlit("red");
    }
    assert(one_line(weekday)) by {
        reveal_strlit("月曜日");
        reveal_strlit("水曜日");
        reveal_strlit("火曜日");
        reveal_strlit("木曜日");
        reveal_strlit("金曜日");
        reveal_strlit("土曜日");
        reveal_strlit("日曜日");
        reveal_strlit("未知");
    }
    assert(one_line(clock));
    reveal_strlit("#[fg=");
    reveal_strlit("]");
    reveal_strlit(" ");
    reveal_strlit(" #[fg=#E6E4D9]");
    reveal_strlit(" #[bold]");
    let a = "#[fg="@ + color;
    lemma_one_line_joined("#[fg="@, color);
    let b = a + "]"@;
    lemma_one_line_joined(a, "]"@);
    let c = b + load1;
    lemma_one_line_joined(b, load1);
    let d = c + " "@;
    lemma_one_line_joined(c, " "@);
    let e = d + load5;
    lemma_one_line_joined(d, load5);
    let f = e + " "@;
    lemma_one_line_joined(e, " "@);
    let g = f + load15;
    lemma_one_line_joined(f, load15);
    let h = g + " #[fg=#E6E4D9]"@;
    lemma_one_line_joined(g, " #[fg=#E6E4D9]"@);
    let i = h + identity;
    lemma_one_line_joined(h, identity);
    let j = i + " #[bold]"@;
    lemma_one_line_joined(i, " #[bold]"@);
    let k = j + weekday;
    lemma_one_line_joined(j, weekday);
    let l = k + " "@;
    lemma_one_line_joined(k, " "@);
    let m = l + clock;
    lemma_one_line_joined(l, clock);
    lemma_one_line_joined(m, " "@);
}

/// Renders the status line for the reading `now` from the content of the
/// load-average source. The load figures are shown as they were read; the
/// first of them, as a percentage of `cpu_count` CPUs, picks the color. The
/// line is a single line wherever the identity is.
pub fn render_tmux(now: &Timestamp, cpu_count: usize, identity: &str, loadavg: &str) -> (out:
    Result<String, LoadError>)
    requires
        cpu_count >= 1,
    ensures
        match first_three_fields(loadavg@) {
            None => out == Err::<String, LoadError>(LoadError::TooFewFields),
            Some((load1, load5, load15)) => if is_decimal(load1) {
                out matches Ok(line) && line@ == rendered(
                    now.local_seconds(),
                    cpu_count as int,
                    identity@,
                    load1,
                    load5,
                    load15,
                )
            } else {
                out == Err::<String, LoadError>(LoadError::NotANumber)
            },
        },
        out matches Ok(line) ==> (one_line(identity@) ==> one_line(line@)),
{
    proof {
        if first_three_fields(loadavg@) is Some && one_line(identity@) {
            let (load1, load5, load15) = first_three_fields(loadavg@).unwrap();
            lemma_fields_are_words(loadavg@);
            lemma_rendered_is_one_line(
                now.local_seconds(),
                cpu_count as int,
                identity@,
                load1,
                load5,
                load15,
            );
        }
    }
    let fields = match split_loadavg(loadavg) {
        Some(fields) => fields,
        None => {
            return Err(LoadError::TooFewFields);
        },
    };
    let color = match load_color(fields.load1, cpu_count) {
        Some(color) => color,
        None => {
            return Err(LoadError::NotANumber);
        },
    };
    let day = now.weekday_name();
    let clock = now.clock();
    Ok(
        format_status(
            color.name(),
            fields.load1,
            fields.load5,
            fields.load15,
            identity,
            weekday_label(day.as_str()),
            clock.as_str(),
        ),
    )
}

} // verus!
