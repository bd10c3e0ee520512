//! Registry locations typed by the user: hive names, the long and short
//! spellings of a path, and moving up and down the key tree.
use vstd::prelude::*;
use crate::text::{chars_of, push_all, starts_with, starts_with_exec, string_from_chars, suffix_from};

verus! {

/// The five registry hives.
#[derive(Clone, Copy, Debug, PartialEq, Eq, Structural)]
pub enum HiveId {
    LocalMachine,
    CurrentUser,
    ClassesRoot,
    Users,
    CurrentConfig,
}

/// Short name of a hive: HKLM, HKCU, HKCR, HKU or HKCC.
pub open spec fn hive_name(h: HiveId) -> Seq<char> {
    match h {
        HiveId::LocalMachine => seq!['H', 'K', 'L', 'M'],
        HiveId::CurrentUser => seq!['H', 'K', 'C', 'U'],
        HiveId::ClassesRoot => seq!['H', 'K', 'C', 'R'],
        HiveId::Users => seq!['H', 'K', 'U'],
        HiveId::CurrentConfig => seq!['H', 'K', 'C', 'C'],
    }
}

/// Long name of a hive, such as HKEY_LOCAL_MACHINE.
pub open spec fn hive_long_name(h: HiveId) -> Seq<char> {
    match h {
        HiveId::LocalMachine => seq![
            'H', 'K', 'E', 'Y', '_', 'L', 'O', 'C', 'A', 'L', '_', 'M', 'A', 'C', 'H', 'I', 'N', 'E'
        ],
        HiveId::CurrentUser => seq![
            'H', 'K', 'E', 'Y', '_', 'C', 'U', 'R', 'R', 'E', 'N', 'T', '_', 'U', 'S', 'E', 'R'
        ],
        HiveId::ClassesRoot => seq![
            'H', 'K', 'E', 'Y', '_', 'C', 'L', 'A', 'S', 'S', 'E', 'S', '_', 'R', 'O', 'O', 'T'
        ],
        HiveId::Users => seq!['H', 'K', 'E', 'Y', '_', 'U', 'S', 'E', 'R', 'S'],
        HiveId::CurrentConfig => seq![
            'H', 'K', 'E', 'Y', '_', 'C', 'U', 'R', 'R', 'E', 'N', 'T', '_', 'C', 'O', 'N', 'F',
            'I', 'G'
        ],
    }
}

/// The hives in the order in which they are tried and offered.
pub open spec fn hive_at(i: int) -> HiveId {
    if i == 0 {
        HiveId::LocalMachine
    } else if i == 1 {
        HiveId::CurrentUser
    } else if i == 2 {
        HiveId::ClassesRoot
    } else if i == 3 {
        HiveId::Users
    } else {
        HiveId::CurrentConfig
    }
}

/// `p` with a leading long hive name replaced by the short one.
pub open spec fn abbreviate_one(p: Seq<char>, h: HiveId) -> Seq<char> {
    if starts_with(p, hive_long_name(h)) {
        hive_name(h) + p.skip(hive_long_name(h).len() as int)
    } else {
        p
    }
}

/// `p` with a leading `H:\` or `H\` (H the short name of `h`) written `H:`.
pub open spec fn colon_one(p: Seq<char>, h: HiveId) -> Seq<char> {
    let with_colon = hive_name(h) + seq![':', '\\'];
    let without = hive_name(h) + seq!['\\'];
    if starts_with(p, with_colon) {
        hive_name(h) + seq![':'] + p.skip(with_colon.len() as int)
    } else if starts_with(p, without) {
        hive_name(h) + seq![':'] + p.skip(without.len() as int)
    } else {
        p
    }
}

/// Applies `abbreviate_one` for the hives `0..k`, in order.
pub open spec fn abbreviate(p: Seq<char>, k: int) -> Seq<char>
    decreases k,
{
    if k <= 0 {
        p
    } else {
        abbreviate_one(abbreviate(p, k - 1), hive_at(k - 1))
    }
}

/// Applies `colon_one` for the hives `0..k`, in order.
pub open spec fn colonize(p: Seq<char>, k: int) -> Seq<char>
    decreases k,
{
    if k <= 0 {
        p
    } else {
        colon_one(colonize(p, k - 1), hive_at(k - 1))
    }
}

/// Position of the first `c` in `s`, if any.
pub open spec fn first_index(s: Seq<char>, c: char) -> Option<int>
    decreases s.len(),
{
    if s.len() == 0 {
        None
    } else {
        match first_index(s.drop_last(), c) {
            Some(i) => Some(i),
            None => if s.last() == c {
                Some(s.len() - 1)
            } else {
                None
            },
        }
    }
}

/// Position of the last `c` in `s`, if any.
pub open spec fn last_index(s: Seq<char>, c: char) -> Option<int>
    decreases s.len(),
{
    if s.len() == 0 {
        None
    } else if s.last() == c {
        Some(s.len() - 1)
    } else {
        last_index(s.drop_last(), c)
    }
}

/// `s` without its trailing backslashes.
pub open spec fn trim_backslashes(s: Seq<char>) -> Seq<char>
    decreases s.len(),
{
    if s.len() > 0 && s.last() == '\\' {
        trim_backslashes(s.drop_last())
    } else {
        s
    }
}

/// The hive whose short name is `d`, if any.
pub open spec fn hive_named(d: Seq<char>) -> Option<HiveId> {
    if d == hive_name(HiveId::LocalMachine) {
        Some(HiveId::LocalMachine)
    } else if d == hive_name(HiveId::CurrentUser) {
        Some(HiveId::CurrentUser)
    } else if d == hive_name(HiveId::ClassesRoot) {
        Some(HiveId::ClassesRoot)
    } else if d == hive_name(HiveId::Users) {
        Some(HiveId::Users)
    } else if d == hive_name(HiveId::CurrentConfig) {
        Some(HiveId::CurrentConfig)
    } else {
        None
    }
}

/// A path split into its hive and its key path: long hive names become short
/// ones, `H:\` and `H\` become `H:`; the text before the first `:` names the
/// hive, the text after it (nothing when there is no `:`) is the key path,
/// without trailing backslashes.
pub open spec fn parsed_path(p: Seq<char>) -> (Option<HiveId>, Seq<char>) {
    let n = colonize(abbreviate(p, 5), 5);
    let (drive, rest) = match first_index(n, ':') {
        Some(i) => (n.take(i), n.skip(i + 1)),
        None => (n, Seq::empty()),
    };
    (hive_named(drive), trim_backslashes(rest))
}

/// The parent of a key path: the text before its last backslash, or the
/// empty path.
pub open spec fn parent_path(p: Seq<char>) -> Seq<char> {
    match last_index(p, '\\') {
        Some(i) => p.take(i),
        None => Seq::empty(),
    }
}

/// The path of subkey `name` under `p`.
pub open spec fn child_path(p: Seq<char>, name: Seq<char>) -> Seq<char> {
    if p.len() == 0 {
        name
    } else {
        p + seq!['\\'] + name
    }
}

/// Short name of a hive.
pub fn hive_short_name(h: HiveId) -> (res: Vec<char>)
    ensures
        res@ == hive_name(h),
{
    let mut v: Vec<char> = Vec::new();
    match h {
        HiveId::LocalMachine => crate::text::push_chars(&mut v, &['H', 'K', 'L', 'M']),
        HiveId::CurrentUser => crate::text::push_chars(&mut v, &['H', 'K', 'C', 'U']),
        HiveId::ClassesRoot => crate::text::push_chars(&mut v, &['H', 'K', 'C', 'R']),
        HiveId::Users => crate::text::push_chars(&mut v, &['H', 'K', 'U']),
        HiveId::CurrentConfig => crate::text::push_chars(&mut v, &['H', 'K', 'C', 'C']),
    }
    assert(v@ =~= hive_name(h));
    v
}

/// Long name of a hive.
fn hive_full_name(h: HiveId) -> (res: Vec<char>)
    ensures
        res@ == hive_long_name(h),
{
    let mut v: Vec<char> = Vec::new();
    match h {
        HiveId::LocalMachine => crate::text::push_chars(
            &mut v,
            &['H', 'K', 'E', 'Y', '_', 'L', 'O', 'C', 'A', 'L', '_', 'M', 'A', 'C', 'H', 'I', 'N', 'E'],
        ),
        HiveId::CurrentUser => crate::text::push_chars(
            &mut v,
            &['H', 'K', 'E', 'Y', '_', 'C', 'U', 'R', 'R', 'E', 'N', 'T', '_', 'U', 'S', 'E', 'R'],
        ),
        HiveId::ClassesRoot => crate::text::push_chars(
            &mut v,
            &['H', 'K', 'E', 'Y', '_', 'C', 'L', 'A', 'S', 'S', 'E', 'S', '_', 'R', 'O', 'O', 'T'],
        ),
        HiveId::Users => crate::text::push_chars(
            &mut v,
            &['H', 'K', 'E', 'Y', '_', 'U', 'S', 'E', 'R', 'S'],
        ),
        HiveId::CurrentConfig => crate::text::push_chars(
            &mut v,
            &[
                'H', 'K', 'E', 'Y', '_', 'C', 'U', 'R', 'R', 'E', 'N', 'T', '_', 'C', 'O', 'N',
                'F', 'I', 'G',
            ],
        ),
    }
    assert(v@ =~= hive_long_name(h));
    v
}

/// The hive at position `i` of HKLM, HKCU, HKCR, HKU, HKCC.
pub fn hive_by_index(i: usize) -> (h: Option<HiveId>)
    ensures
        i < 5 ==> h == Some(hive_at(i as int)),
        i >= 5 ==> h is None,
{
    if i == 0 {
        Some(HiveId::LocalMachine)
    } else if i == 1 {
        Some(HiveId::CurrentUser)
    } else if i == 2 {
        Some(HiveId::ClassesRoot)
    } else if i == 3 {
        Some(HiveId::Users)
    } else if i == 4 {
        Some(HiveId::CurrentConfig)
    } else {
        None
    }
}

fn seq_eq(a: &Vec<char>, b: &Vec<char>) -> (r: bool)
    ensures
        r == (a@ == b@),
{
    if a.len() != b.len() {
        return false;
    }
    let mut i: usize = 0;
    while i < a.len()
        invariant
            i <= a.len() == b.len(),
            forall|k: int| 0 <= k < i ==> a@[k] == b@[k],
        decreases a.len() - i,
    {
        if a[i] != b[i] {
            return false;
        }
        i = i + 1;
    }
    assert(a@ =~= b@);
    true
}

fn hive_named_exec(d: &Vec<char>) -> (h: Option<HiveId>)
    ensures
        h == hive_named(d@),
{
    let mut i: usize = 0;
    while i < 5
        invariant
            i <= 5,
            forall|k: int| 0 <= k < i ==> d@ != hive_name(hive_at(k)),
        decreases 5 - i,
    {
        let h = hive_by_index(i).unwrap();
        let name = hive_short_name(h);
        if seq_eq(d, &name) {
            return Some(h);
        }
        i = i + 1;
    }
    assert(d@ != hive_name(hive_at(0)));
    assert(d@ != hive_name(hive_at(1)));
    assert(d@ != hive_name(hive_at(2)));
    assert(d@ != hive_name(hive_at(3)));
    assert(d@ != hive_name(hive_at(4)));
    None
}

fn abbreviate_one_exec(p: Vec<char>, h: HiveId) -> (res: Vec<char>)
    ensures
        res@ == abbreviate_one(p@, h),
{
    let full = hive_full_name(h);
    if starts_with_exec(&p, &full) {
        let mut res = hive_short_name(h);
        let rest = suffix_from(&p, full.len());
        push_all(&mut res, &rest);
        res
    } else {
        p
    }
}

fn colon_one_exec(p: Vec<char>, h: HiveId) -> (res: Vec<char>)
    ensures
        res@ == colon_one(p@, h),
{
    let mut with_colon = hive_short_name(h);
    with_colon.push(':');
    with_colon.push('\\');
    let mut without = hive_short_name(h);
    without.push('\\');
    assert(with_colon@ =~= hive_name(h) + seq![':', '\\']);
    assert(without@ =~= hive_name(h) + seq!['\\']);
    if starts_with_exec(&p, &with_colon) {
        let mut res = hive_short_name(h);
        res.push(':');
        let rest = suffix_from(&p, with_colon.len());
        push_all(&mut res, &rest);
        assert(res@ =~= colon_one(p@, h));
        res
    } else if starts_with_exec(&p, &without) {
        let mut res = hive_short_name(h);
        res.push(':');
        let rest = suffix_from(&p, without.len());
        push_all(&mut res, &rest);
        assert(res@ =~= colon_one(p@, h));
        res
    } else {
        p
    }
}

fn first_index_exec(s: &Vec<char>, c: char) -> (r: Option<usize>)
    ensures
        r matches Some(i) ==> first_index(s@, c) == Some(i as int) && i < s@.len(),
        r is None ==> first_index(s@, c) is None,
{
    let mut i: usize = 0;
    while i < s.len()
        invariant
            i <= s.len(),
            first_index(s@.take(i as int), c) is None,
        decreases s.len() - i,
    {
        assert(s@.take(i + 1).drop_last() =~= s@.take(i as int));
        if s[i] == c {
            proof {
                lemma_first_index_extend(s@, c, i as int);
            }
            return Some(i);
        }
        i = i + 1;
    }
    assert(s@.take(i as int) =~= s@);
    None
}

/// A first occurrence found in a prefix stays the first occurrence.
proof fn lemma_first_index_extend(s: Seq<char>, c: char, i: int)
    requires
        0 <= i < s.len(),
        first_index(s.take(i), c) is None,
        s[i] == c,
    ensures
        first_index(s, c) == Some(i),
    decreases s.len(),
{
    assert(s.take(i + 1).drop_last() =~= s.take(i));
    if s.len() > i + 1 {
        assert(s.drop_last().take(i) =~= s.take(i));
        lemma_first_index_extend(s.drop_last(), c, i);
    } else {
        assert(s.take(i + 1) =~= s);
    }
}

fn last_index_exec(s: &Vec<char>, c: char) -> (r: Option<usize>)
    ensures
        r matches Some(i) ==> last_index(s@, c) == Some(i as int) && i < s@.len(),
        r is None ==> last_index(s@, c) is None,
{
    let mut i: usize = s.len();
    assert(s@.take(i as int) =~= s@);
    while i > 0
        invariant
            i <= s.len(),
            last_index(s@, c) == last_index(s@.take(i as int), c),
        decreases i,
    {
        assert(s@.take(i as int).drop_last() =~= s@.take(i - 1));
        if s[i - 1] == c {
            return Some(i - 1);
        }
        i = i - 1;
    }
    None
}

/// Splits a path typed by the user into its hive and its key path.
pub fn parse_path(path: &str) -> (res: (Option<HiveId>, String))
    ensures
        (res.0, res.1@) == parsed_path(path@),
{
    let mut p = chars_of(path);
    let mut k: usize = 0;
    while k < 5
        invariant
            k <= 5,
            p@ == abbreviate(path@, k as int),
        decreases 5 - k,
    {
        let h = hive_by_index(k).unwrap();
        p = abbreviate_one_exec(p, h);
        k = k + 1;
    }
    let ghost abbreviated = p@;
    k = 0;
    while k < 5
        invariant
            k <= 5,
            p@ == colonize(abbreviated, k as int),
        decreases 5 - k,
    {
        let h = hive_by_index(k).unwrap();
        p = colon_one_exec(p, h);
        k = k + 1;
    }
    let colon = first_index_exec(&p, ':');
    let (drive, rest) = match colon {
        Some(i) => {
            assert(i < p@.len());
            (crate::text::prefix_to(&p, i), suffix_from(&p, i + 1))
        },
        None => (p.clone(), Vec::new()),
    };
    assert(drive@ =~= match first_index(p@, ':') {
        Some(i) => p@.take(i),
        None => p@,
    });
    let hive = hive_named_exec(&drive);
    let mut end = rest.len();
    assert(rest@.take(end as int) =~= rest@);
    while end > 0 && rest[end - 1] == '\\'
        invariant
            end <= rest.len(),
            trim_backslashes(rest@) == trim_backslashes(rest@.take(end as int)),
        decreases end,
    {
        assert(rest@.take(end as int).drop_last() =~= rest@.take(end - 1));
        end = end - 1;
    }
    let trimmed = crate::text::prefix_to(&rest, end);
    assert(rest@.take(end as int) =~= trimmed@);
    (hive, string_from_chars(&trimmed))
}

/// The parent of a key path.
pub fn parent_of(path: &str) -> (res: String)
    ensures
        res@ == parent_path(path@),
{
    let p = chars_of(path);
    match last_index_exec(&p, '\\') {
        Some(i) => {
            let v = crate::text::prefix_to(&p, i);
            string_from_chars(&v)
        },
        None => String::new(),
    }
}

/// The path of subkey `name` under `path`.
pub fn child_of(path: &str, name: &str) -> (res: String)
    ensures
        res@ == child_path(path@, name@),
{
    let p = chars_of(path);
    let n = chars_of(name);
    if p.len() == 0 {
        return string_from_chars(&n);
    }
    let mut v = p;
    v.push('\\');
    push_all(&mut v, &n);
    string_from_chars(&v)
}

/// `H:\p` as shown to the user for hive `h` and key path `p`.
pub open spec fn location_text(h: HiveId, p: Seq<char>) -> Seq<char> {
    hive_name(h) + seq![':', '\\'] + p
}

/// The location of a key as shown in the header and offered for editing.
pub fn location_of(h: HiveId, path: &str) -> (res: String)
    ensures
        res@ == location_text(h, path@),
{
    let mut v = hive_short_name(h);
    v.push(':');
    v.push('\\');
    let p = chars_of(path);
    push_all(&mut v, &p);
    assert(v@ =~= location_text(h, path@));
    string_from_chars(&v)
}

/// Going to a subkey and then to the parent comes back to the key, when the
/// subkey's name has no backslash.
pub proof fn lemma_parent_of_child(p: Seq<char>, name: Seq<char>)
    requires
        last_index(name, '\\') is None,
    ensures
        parent_path(child_path(p, name)) == p,
{
    if p.len() > 0 {
        let c = p + seq!['\\'] + name;
        lemma_last_index_after(p + seq!['\\'], name, '\\');
        assert(c.take(p.len() as int) =~= p);
    } else {
        lemma_last_index_none_after(name, '\\');
    }
}

proof fn lemma_last_index_after(a: Seq<char>, b: Seq<char>, c: char)
    requires
        a.len() > 0,
        a.last() == c,
        last_index(b, c) is None,
    ensures
        last_index(a + b, c) == Some(a.len() - 1),
    decreases b.len(),
{
    if b.len() == 0 {
        assert(a + b =~= a);
    } else {
        assert((a + b).drop_last() =~= a + b.drop_last());
        lemma_last_index_after(a, b.drop_last(), c);
    }
}

proof fn lemma_last_index_none_after(b: Seq<char>, c: char)
    requires
        c == '\\',
        last_index(b, c) is None,
    ensures
        parent_path(b) == Seq::<char>::empty(),
{
}

proof fn lemma_first_index_of_location(h: HiveId, p: Seq<char>)
    ensures
        first_index(hive_name(h) + seq![':'] + p, ':') == Some(hive_name(h).len() as int),
{
    let s = hive_name(h) + seq![':'] + p;
    let i = hive_name(h).len() as int;
    assert(s[i] == ':');
    assert forall|k: int| 0 <= k < i implies s.take(i)[k] != ':' by {
        assert(s.take(i)[k] == hive_name(h)[k]);
    }
    lemma_first_index_none(s.take(i), ':');
    lemma_first_index_extend(s, ':', i);
}

proof fn lemma_first_index_none(s: Seq<char>, c: char)
    requires
        forall|k: int| 0 <= k < s.len() ==> s[k] != c,
    ensures
        first_index(s, c) is None,
    decreases s.len(),
{
    if s.len() > 0 {
        lemma_first_index_none(s.drop_last(), c);
    }
}

/// Position of a hive in HKLM, HKCU, HKCR, HKU, HKCC.
pub open spec fn hive_index(h: HiveId) -> int {
    match h {
        HiveId::LocalMachine => 0,
        HiveId::CurrentUser => 1,
        HiveId::ClassesRoot => 2,
        HiveId::Users => 3,
        HiveId::CurrentConfig => 4,
    }
}

/// A text that starts with `H:` (H a short hive name) starts with no long
/// hive name.
proof fn lemma_no_long_name(s: Seq<char>, h: HiveId, g: HiveId)
    requires
        starts_with(s, hive_name(h) + seq![':']),
    ensures
        !starts_with(s, hive_long_name(g)),
{
    let a = hive_name(h) + seq![':'];
    assert(s[2] == a[2]);
    if starts_with(s, hive_long_name(g)) {
        assert(s[2] == hive_long_name(g)[2]);
    }
}

/// A text that starts with `H:` starts with no other short hive name
/// followed by `:\` or `\`.
proof fn lemma_no_other_short_name(s: Seq<char>, h: HiveId, g: HiveId)
    requires
        starts_with(s, hive_name(h) + seq![':']),
        h != g,
    ensures
        !starts_with(s, hive_name(g) + seq![':', '\\']),
        !starts_with(s, hive_name(g) + seq!['\\']),
{
    let a = hive_name(h) + seq![':'];
    assert(s[2] == a[2]);
    assert(s[3] == a[3]);
    let t1 = hive_name(g) + seq![':', '\\'];
    let t2 = hive_name(g) + seq!['\\'];
    if starts_with(s, t1) {
        assert(s[2] == t1[2]);
        assert(s[3] == t1[3]);
    }
    if starts_with(s, t2) {
        assert(s[2] == t2[2]);
        assert(s[3] == t2[3]);
    }
}

proof fn lemma_abbreviate_location(h: HiveId, p: Seq<char>, k: int)
    requires
        0 <= k <= 5,
    ensures
        abbreviate(location_text(h, p), k) == location_text(h, p),
    decreases k,
{
    let s = location_text(h, p);
    assert(s.take(hive_name(h).len() + 1 as int) =~= hive_name(h) + seq![':']);
    if k > 0 {
        lemma_abbreviate_location(h, p, k - 1);
        lemma_no_long_name(s, h, hive_at(k - 1));
    }
}

proof fn lemma_colonize_location(h: HiveId, p: Seq<char>, k: int)
    requires
        0 <= k <= 5,
    ensures
        colonize(location_text(h, p), k) == if k <= hive_index(h) {
            location_text(h, p)
        } else {
            hive_name(h) + seq![':'] + p
        },
    decreases k,
{
    let s = location_text(h, p);
    let n = hive_name(h) + seq![':'] + p;
    assert(s.take(hive_name(h).len() + 1 as int) =~= hive_name(h) + seq![':']);
    assert(n.take(hive_name(h).len() + 1 as int) =~= hive_name(h) + seq![':']);
    if k > 0 {
        lemma_colonize_location(h, p, k - 1);
        let g = hive_at(k - 1);
        if g == h {
            let t1 = hive_name(h) + seq![':', '\\'];
            assert(s.take(t1.len() as int) =~= t1);
            assert(s.skip(t1.len() as int) =~= p);
            assert(hive_name(h) + seq![':'] + s.skip(t1.len() as int) =~= n);
        } else if k <= hive_index(h) {
            lemma_no_other_short_name(s, h, g);
        } else {
            lemma_no_other_short_name(n, h, g);
        }
    }
}

/// The location shown for a key, typed back in, opens the same key: for a
/// key path that does not end with a backslash.
pub proof fn lemma_parse_location(h: HiveId, p: Seq<char>)
    requires
        !(p.len() > 0 && p.last() == '\\'),
    ensures
        parsed_path(location_text(h, p)) == (Some(h), p),
{
    lemma_abbreviate_location(h, p, 5);
    lemma_colonize_location(h, p, 5);
    let n = hive_name(h) + seq![':'] + p;
    lemma_first_index_of_location(h, p);
    assert(n.take(hive_name(h).len() as int) =~= hive_name(h));
    assert(n.skip(hive_name(h).len() + 1 as int) =~= p);
}

/// A text that starts with the long name of hive `h` starts with the long
/// name of no hive tried before `h`.
proof fn lemma_long_names_apart(s: Seq<char>, h: HiveId, g: HiveId)
    requires
        starts_with(s, hive_long_name(h)),
        hive_index(g) < hive_index(h),
    ensures
        !starts_with(s, hive_long_name(g)),
{
    let a = hive_long_name(h);
    assert(s.take(a.len() as int) == a);
    assert(s[5] == a[5]);
    assert(s[6] == a[6]);
    if h == HiveId::CurrentConfig {
        assert(s[13] == a[13]);
    }
    let b = hive_long_name(g);
    if starts_with(s, b) {
        assert(s.take(b.len() as int) == b);
        assert(s[5] == b[5]);
        assert(s[6] == b[6]);
        if g == HiveId::CurrentUser {
            assert(s[13] == b[13]);
        }
    }
}

/// A text that starts with a short hive name and a backslash starts with no
/// long hive name.
proof fn lemma_short_not_long(t: Seq<char>, h: HiveId, g: HiveId)
    requires
        starts_with(t, hive_name(h) + seq!['\\']),
    ensures
        !starts_with(t, hive_long_name(g)),
{
    let a = hive_name(h) + seq!['\\'];
    assert(t.take(a.len() as int) == a);
    assert(t[2] == a[2]);
    let b = hive_long_name(g);
    if starts_with(t, b) {
        assert(t.take(b.len() as int) == b);
        assert(t[2] == b[2]);
    }
}

/// A text that starts with `H\` starts with no other short hive name
/// followed by `:\` or `\`, and not with `H:\`.
proof fn lemma_short_backslash_prefixes(t: Seq<char>, h: HiveId, g: HiveId)
    requires
        starts_with(t, hive_name(h) + seq!['\\']),
    ensures
        !starts_with(t, hive_name(g) + seq![':', '\\']),
        g != h ==> !starts_with(t, hive_name(g) + seq!['\\']),
{
    let a = hive_name(h) + seq!['\\'];
    assert(t.take(a.len() as int) == a);
    assert(t[2] == a[2]);
    assert(t[3] == a[3]);
    let t1 = hive_name(g) + seq![':', '\\'];
    let t2 = hive_name(g) + seq!['\\'];
    if starts_with(t, t1) {
        assert(t.take(t1.len() as int) == t1);
        assert(t[2] == t1[2]);
        assert(t[3] == t1[3]);
        if g == h {
            assert(t[hive_name(h).len() as int] == a[hive_name(h).len() as int]);
            assert(t[hive_name(h).len() as int] == t1[hive_name(h).len() as int]);
        }
    }
    if g != h && starts_with(t, t2) {
        assert(t.take(t2.len() as int) == t2);
        assert(t[2] == t2[2]);
        assert(t[3] == t2[3]);
    }
}

proof fn lemma_abbreviate_long(h: HiveId, p: Seq<char>, k: int)
    requires
        0 <= k <= 5,
    ensures
        abbreviate(hive_long_name(h) + seq!['\\'] + p, k) == if k <= hive_index(h) {
            hive_long_name(h) + seq!['\\'] + p
        } else {
            hive_name(h) + seq!['\\'] + p
        },
    decreases k,
{
    let s = hive_long_name(h) + seq!['\\'] + p;
    let t = hive_name(h) + seq!['\\'] + p;
    assert(s.take(hive_long_name(h).len() as int) =~= hive_long_name(h));
    assert(t.take(hive_name(h).len() + 1 as int) =~= hive_name(h) + seq!['\\']);
    if k > 0 {
        lemma_abbreviate_long(h, p, k - 1);
        let g = hive_at(k - 1);
        if g == h {
            assert(s.skip(hive_long_name(h).len() as int) =~= seq!['\\'] + p);
            assert(hive_name(h) + (seq!['\\'] + p) =~= t);
        } else if k <= hive_index(h) {
            lemma_long_names_apart(s, h, g);
        } else {
            lemma_short_not_long(t, h, g);
        }
    }
}

proof fn lemma_abbreviate_short(h: HiveId, p: Seq<char>, k: int)
    requires
        0 <= k <= 5,
    ensures
        abbreviate(hive_name(h) + seq!['\\'] + p, k) == hive_name(h) + seq!['\\'] + p,
    decreases k,
{
    let t = hive_name(h) + seq!['\\'] + p;
    assert(t.take(hive_name(h).len() + 1 as int) =~= hive_name(h) + seq!['\\']);
    if k > 0 {
        lemma_abbreviate_short(h, p, k - 1);
        lemma_short_not_long(t, h, hive_at(k - 1));
    }
}

proof fn lemma_colonize_short(h: HiveId, p: Seq<char>, k: int)
    requires
        0 <= k <= 5,
    ensures
        colonize(hive_name(h) + seq!['\\'] + p, k) == if k <= hive_index(h) {
            hive_name(h) + seq!['\\'] + p
        } else {
            hive_name(h) + seq![':'] + p
        },
    decreases k,
{
    let t = hive_name(h) + seq!['\\'] + p;
    let n = hive_name(h) + seq![':'] + p;
    assert(t.take(hive_name(h).len() + 1 as int) =~= hive_name(h) + seq!['\\']);
    assert(n.take(hive_name(h).len() + 1 as int) =~= hive_name(h) + seq![':']);
    if k > 0 {
        lemma_colonize_short(h, p, k - 1);
        let g = hive_at(k - 1);
        if g == h {
            lemma_short_backslash_prefixes(t, h, g);
            assert(t.skip(hive_name(h).len() + 1 as int) =~= p);
            assert(hive_name(h) + seq![':'] + t.skip(hive_name(h).len() + 1 as int) =~= n);
        } else if k <= hive_index(h) {
            lemma_short_backslash_prefixes(t, h, g);
        } else {
            lemma_no_other_short_name(n, h, g);
        }
    }
}

/// The short name, a colon and a key path, split at the colon.
proof fn lemma_parse_colon_form(h: HiveId, p: Seq<char>)
    requires
        !(p.len() > 0 && p.last() == '\\'),
    ensures
        ({
            let n = hive_name(h) + seq![':'] + p;
            let (drive, rest) = match first_index(n, ':') {
                Some(i) => (n.take(i), n.skip(i + 1)),
                None => (n, Seq::empty()),
            };
            (hive_named(drive), trim_backslashes(rest)) == (Some(h), p)
        }),
{
    let n = hive_name(h) + seq![':'] + p;
    lemma_first_index_of_location(h, p);
    assert(n.take(hive_name(h).len() as int) =~= hive_name(h));
    assert(n.skip(hive_name(h).len() + 1 as int) =~= p);
}

/// A key path after a hive's long name and a backslash, or after its short
/// name and a backslash, opens that key of that hive: for a key path that
/// does not end with a backslash.
pub proof fn lemma_long_and_short_names_parse(p: Seq<char>)
    requires
        !(p.len() > 0 && p.last() == '\\'),
    ensures
        parsed_path("HKEY_LOCAL_MACHINE\\"@ + p) == (Some(HiveId::LocalMachine), p),
        parsed_path("HKEY_CURRENT_USER\\"@ + p) == (Some(HiveId::CurrentUser), p),
        parsed_path("HKEY_CLASSES_ROOT\\"@ + p) == (Some(HiveId::ClassesRoot), p),
        parsed_path("HKEY_USERS\\"@ + p) == (Some(HiveId::Users), p),
        parsed_path("HKEY_CURRENT_CONFIG\\"@ + p) == (Some(HiveId::CurrentConfig), p),
        parsed_path("HKLM\\"@ + p) == (Some(HiveId::LocalMachine), p),
        parsed_path("HKCU\\"@ + p) == (Some(HiveId::CurrentUser), p),
        parsed_path("HKCR\\"@ + p) == (Some(HiveId::ClassesRoot), p),
        parsed_path("HKU\\"@ + p) == (Some(HiveId::Users), p),
        parsed_path("HKCC\\"@ + p) == (Some(HiveId::CurrentConfig), p),
{
    reveal_strlit("HKEY_LOCAL_MACHINE\\");
    reveal_strlit("HKEY_CURRENT_USER\\");
    reveal_strlit("HKEY_CLASSES_ROOT\\");
    reveal_strlit("HKEY_USERS\\");
    reveal_strlit("HKEY_CURRENT_CONFIG\\");
    reveal_strlit("HKLM\\");
    reveal_strlit("HKCU\\");
    reveal_strlit("HKCR\\");
    reveal_strlit("HKU\\");
    reveal_strlit("HKCC\\");
    assert forall|h: HiveId| #![auto] true implies parsed_path(hive_long_name(h) + seq!['\\'] + p) == (Some(h), p)
        && parsed_path(hive_name(h) + seq!['\\'] + p) == (Some(h), p) by {
        lemma_abbreviate_long(h, p, 5);
        lemma_abbreviate_short(h, p, 5);
        lemma_colonize_short(h, p, 5);
        lemma_parse_colon_form(h, p);
    }
    assert("HKEY_LOCAL_MACHINE\\"@ + p =~= hive_long_name(HiveId::LocalMachine) + seq!['\\'] + p);
    assert("HKEY_CURRENT_USER\\"@ + p =~= hive_long_name(HiveId::CurrentUser) + seq!['\\'] + p);
    assert("HKEY_CLASSES_ROOT\\"@ + p =~= hive_long_name(HiveId::ClassesRoot) + seq!['\\'] + p);
    assert("HKEY_USERS\\"@ + p =~= hive_long_name(HiveId::Users) + seq!['\\'] + p);
    assert("HKEY_CURRENT_CONFIG\\"@ + p =~= hive_long_name(HiveId::CurrentConfig) + seq!['\\'] + p);
    assert("HKLM\\"@ + p =~= hive_name(HiveId::LocalMachine) + seq!['\\'] + p);
    assert("HKCU\\"@ + p =~= hive_name(HiveId::CurrentUser) + seq!['\\'] + p);
    assert("HKCR\\"@ + p =~= hive_name(HiveId::ClassesRoot) + seq!['\\'] + p);
    assert("HKU\\"@ + p =~= hive_name(HiveId::Users) + seq!['\\'] + p);
    assert("HKCC\\"@ + p =~= hive_name(HiveId::CurrentConfig) + seq!['\\'] + p);
    let t0 = hive_long_name(HiveId::LocalMachine) + seq!['\\'] + p;
    let t1 = hive_long_name(HiveId::CurrentUser) + seq!['\\'] + p;
    let t2 = hive_long_name(HiveId::ClassesRoot) + seq!['\\'] + p;
    let t3 = hive_long_name(HiveId::Users) + seq!['\\'] + p;
    let t4 = hive_long_name(HiveId::CurrentConfig) + seq!['\\'] + p;
    assert(parsed_path(t0) == (Some(HiveId::LocalMachine), p));
    assert(parsed_path(t1) == (Some(HiveId::CurrentUser), p));
    assert(parsed_path(t2) == (Some(HiveId::ClassesRoot), p));
    assert(parsed_path(t3) == (Some(HiveId::Users), p));
    assert(parsed_path(t4) == (Some(HiveId::CurrentConfig), p));
    let u0 = hive_name(HiveId::LocalMachine) + seq!['\\'] + p;
    let u1 = hive_name(HiveId::CurrentUser) + seq!['\\'] + p;
    let u2 = hive_name(HiveId::ClassesRoot) + seq!['\\'] + p;
    let u3 = hive_name(HiveId::Users) + seq!['\\'] + p;
    let u4 = hive_name(HiveId::CurrentConfig) + seq!['\\'] + p;
    assert(parsed_path(u0) == (Some(HiveId::LocalMachine), p));
    assert(parsed_path(u1) == (Some(HiveId::CurrentUser), p));
    assert(parsed_path(u2) == (Some(HiveId::ClassesRoot), p));
    assert(parsed_path(u3) == (Some(HiveId::Users), p));
    assert(parsed_path(u4) == (Some(HiveId::CurrentConfig), p));
}

} // verus!
