//! The firewall screen: its rules and their rows.
use vstd::prelude::*;
use crate::regedit::marker;
use crate::services::name_width;
use crate::text::{chars_of, padded, push_all, push_padded, push_str, trim_chars, trimmed};

verus! {

/// A firewall rule as listed.
#[derive(Debug)]
pub struct FirewallRule {
    pub name: String,
    pub action: String,
    pub program: String,
    pub protocol: String,
    pub port: String,
    pub enabled: bool,
}

/// What a rule does, in words: 1 allows, 0 blocks.
pub open spec fn action_name(a: i32) -> Seq<char> {
    if a == 1 {
        "Allow"@
    } else if a == 0 {
        "Block"@
    } else {
        "???"@
    }
}

/// What a rule does, in words.
pub fn action_name_exec(a: i32) -> (s: &'static str)
    ensures
        s@ == action_name(a),
{
    if a == 1 {
        "Allow"
    } else if a == 0 {
        "Block"
    } else {
        "???"
    }
}

/// A row of the firewall list: marker, name, whether enabled, action, local
/// ports and program.
pub open spec fn rule_row_text(r: (Seq<char>, Seq<char>, Seq<char>, Seq<char>, bool), selected: bool, width: int) -> Seq<
    char,
> {
    let (name, action, port, program, enabled) = r;
    let w = name_width(width);
    seq![marker(selected), ' '] + padded(trimmed(name, w), w) + seq![' '] + (if enabled {
        "Enabled "@
    } else {
        "Disabled"@
    }) + seq![' '] + action + seq![' '] + padded(trimmed(port, 20), 20) + seq![' '] + trimmed(
        program,
        w,
    )
}

/// The parts of a rule that its row shows.
pub open spec fn rule_view(r: FirewallRule) -> (Seq<char>, Seq<char>, Seq<char>, Seq<char>, bool) {
    (r.name@, r.action@, r.port@, r.program@, r.enabled)
}

/// A row of the firewall list on a screen `width` wide.
pub fn rule_row(r: &FirewallRule, selected: bool, width: usize) -> (res: Vec<char>)
    requires
        width >= 26,
    ensures
        res@ == rule_row_text(rule_view(*r), selected, width as int),
{
    let w = (width - 14) / 2;
    let mut v: Vec<char> = Vec::new();
    v.push(if selected { '>' } else { ' ' });
    v.push(' ');
    let name = chars_of(r.name.as_str());
    let t = trim_chars(&name, w);
    push_padded(&mut v, &t, w);
    v.push(' ');
    push_str(&mut v, if r.enabled { "Enabled " } else { "Disabled" });
    v.push(' ');
    push_str(&mut v, r.action.as_str());
    v.push(' ');
    let port = chars_of(r.port.as_str());
    let tp = trim_chars(&port, 20);
    push_padded(&mut v, &tp, 20);
    v.push(' ');
    let program = chars_of(r.program.as_str());
    let tg = trim_chars(&program, w);
    push_all(&mut v, &tg);
    assert(v@ =~= rule_row_text(rule_view(*r), selected, width as int));
    v
}

/// The rows of the firewall list for the shown rules, the one at position
/// `selected` marked.
pub fn rule_rows(rules: &Vec<FirewallRule>, shown: &Vec<usize>, selected: usize, width: usize) -> (res:
    Vec<Vec<char>>)
    requires
        width >= 26,
        forall|k: int| 0 <= k < shown@.len() ==> #[trigger] shown@[k] < rules@.len(),
    ensures
        res@.len() == shown@.len(),
        forall|k: int|
            0 <= k < shown@.len() ==> #[trigger] res@[k]@ == rule_row_text(
                rule_view(rules@[shown@[k] as int]),
                k == selected,
                width as int,
            ),
{
    let mut res: Vec<Vec<char>> = Vec::new();
    let mut k: usize = 0;
    while k < shown.len()
        invariant
            k <= shown.len(),
            width >= 26,
            res@.len() == k,
            forall|j: int| 0 <= j < shown@.len() ==> #[trigger] shown@[j] < rules@.len(),
            forall|j: int|
                0 <= j < k ==> #[trigger] res@[j]@ == rule_row_text(
                    rule_view(rules@[shown@[j] as int]),
                    j == selected,
                    width as int,
                ),
        decreases shown.len() - k,
    {
        let line = rule_row(&rules[shown[k]], k == selected, width);
        res.push(line);
        k = k + 1;
    }
    res
}

} // verus!
