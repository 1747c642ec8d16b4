//! The label shown for each weekday.

use crate::clock::{days_from_sunday, english_weekday};
use crate::text::same_text;
use vstd::prelude::*;

verus! {

/// The label of an English weekday name; any other text gets the label for
/// an unknown day.
pub open spec fn label_of(name: Seq<char>) -> Seq<char> {
    if name == "Monday"@ {
        "月曜日"@
    } else if name == "Tuesday"@ {
        "火曜日"@
    } else if name == "Wednesday"@ {
        "水曜日"@
    } else if name == "Thursday"@ {
        "木曜日"@
    } else if name == "Friday"@ {
        "金曜日"@
    } else if name == "Saturday"@ {
        "土曜日"@
    } else if name == "Sunday"@ {
        "日曜日"@
    } else {
        "未知"@
    }
}

/// Looks up the label of a weekday name.
pub fn weekday_label(name: &str) -> (label: &'static str)
    ensures
        label@ == label_of(name@),
{
    if same_text(name, "Monday") {
        "月曜日"
    } else if same_text(name, "Tuesday") {
        "火曜日"
    } else if same_text(name, "Wednesday") {
        "水曜日"
    } else if same_text(name, "Thursday") {
        "木曜日"
    } else if same_text(name, "Friday") {
        "金曜日"
    } else if same_text(name, "Saturday") {
        "土曜日"
    } else if same_text(name, "Sunday") {
        "日曜日"
    } else {
        "未知"
    }
}

/// The weekday of any instant has a label of its own: the label for an
/// unknown day is never shown for a clock reading.
pub proof fn lemma_every_day_is_labelled(local: int)
    ensures
        label_of(english_weekday(days_from_sunday(local))) != "未知"@,
{
    reveal_strlit("月曜日");
    reveal_strlit("火曜日");
    reveal_strlit("水曜日");
    reveal_strlit("木曜日");
    reveal_strlit("金曜日");
    reveal_strlit("土曜日");
    reveal_strlit("日曜日");
    reveal_strlit("未知");
    assert(label_of(english_weekday(days_from_sunday(local))).len() == 3);
    assert("未知"@.len() == 2);
}

} // verus!
