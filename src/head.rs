use crate::column_sort::ColumnSort;
use vstd::prelude::*;

verus! {

/// The decimal digit `d`.
pub open spec fn digit_text(d: nat) -> Seq<char> {
    if d == 0 {
        "0"@
    } else if d == 1 {
        "1"@
    } else if d == 2 {
        "2"@
    } else if d == 3 {
        "3"@
    } else if d == 4 {
        "4"@
    } else if d == 5 {
        "5"@
    } else if d == 6 {
        "6"@
    } else if d == 7 {
        "7"@
    } else if d == 8 {
        "8"@
    } else {
        "9"@
    }
}

/// `n` written in decimal, without leading zeros.
pub open spec fn decimal_text(n: nat) -> Seq<char>
    decreases n,
{
    if n < 10 {
        digit_text(n)
    } else {
        decimal_text(n / 10) + digit_text(n % 10)
    }
}

fn digit(d: usize) -> (r: &'static str)
    requires
        d < 10,
    ensures
        r@ == digit_text(d as nat),
{
    if d == 0 {
        "0"
    } else if d == 1 {
        "1"
    } else if d == 2 {
        "2"
    } else if d == 3 {
        "3"
    } else if d == 4 {
        "4"
    } else if d == 5 {
        "5"
    } else if d == 6 {
        "6"
    } else if d == 7 {
        "7"
    } else if d == 8 {
        "8"
    } else {
        "9"
    }
}

/// `n` written in decimal.
pub fn decimal(n: usize) -> (r: String)
    ensures
        r@ == decimal_text(n as nat),
    decreases n,
{
    if n < 10 {
        String::from_str(digit(n))
    } else {
        let high = decimal(n / 10);
        high.concat(digit(n % 10))
    }
}

/// The CSS variable that holds the sort icon of a head cell.
pub open spec fn sort_icon_style(d: ColumnSort) -> Seq<char> {
    match d {
        ColumnSort::Ascending => "--sort-icon: '▲';"@,
        ColumnSort::Descending => "--sort-icon: '▼';"@,
        ColumnSort::Unsorted => "--sort-icon: '';"@,
    }
}

/// The CSS variable that holds the sort priority of a head cell, counted from one.
pub open spec fn sort_priority_style(p: Option<usize>) -> Seq<char> {
    match p {
        Some(p) => "--sort-priority: '"@ + decimal_text((p + 1) as nat) + "';"@,
        None => "--sort-priority: '';"@,
    }
}

/// The style of a head cell that shows its sort direction and, counted from one, its sort
/// priority (`0` is the first sort column).
pub fn default_th_sorting_style(sort_priority: Option<usize>, sort_direction: ColumnSort) -> (r:
    String)
    requires
        sort_priority matches Some(p) ==> p < usize::MAX,
    ensures
        r@ == sort_icon_style(sort_direction) + " "@ + sort_priority_style(sort_priority),
{
    let sort = match sort_direction {
        ColumnSort::Ascending => "--sort-icon: '▲';",
        ColumnSort::Descending => "--sort-icon: '▼';",
        ColumnSort::Unsorted => "--sort-icon: '';",
    };
    let priority = match sort_priority {
        Some(priority) => {
            let s = String::from_str("--sort-priority: '");
            let s = s.concat(decimal(priority + 1).as_str());
            s.concat("';")
        },
        None => String::from_str("--sort-priority: '';"),
    };
    let out = String::from_str(sort);
    let out = out.concat(" ");
    out.concat(priority.as_str())
}

} // verus!
