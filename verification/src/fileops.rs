//! File operations as decisions: the stages of a move, how a copy or a
//! removal proceeds, the total size of a directory, and the texts the
//! properties window and the terminal panel are given.
use vstd::prelude::*;
use crate::paths::{joined, path_join};
use crate::text::{decimal, decimal_text, digit_char, owned, concat2, concat3, replace, replace_text};
use crate::format::{size_text, format_size, permission_text, format_permissions};

verus! {

/// Where a move stands. A move first tries a rename; when that fails (the
/// target is on another file system) it copies and then deletes the
/// source.
#[derive(Clone, Copy, Debug, PartialEq, Eq, Structural)]
pub enum MoveStage {
    Renaming,
    Copying,
    Deleting,
    Done,
    Failed,
}

/// The stage after the current step succeeded or failed.
pub open spec fn after_step(stage: MoveStage, succeeded: bool) -> MoveStage {
    match stage {
        MoveStage::Renaming => if succeeded { MoveStage::Done } else { MoveStage::Copying },
        MoveStage::Copying => if succeeded { MoveStage::Deleting } else { MoveStage::Failed },
        MoveStage::Deleting => if succeeded { MoveStage::Done } else { MoveStage::Failed },
        MoveStage::Done => MoveStage::Done,
        MoveStage::Failed => MoveStage::Failed,
    }
}

/// The next stage of a move, given whether the step just performed
/// succeeded.
pub fn move_step(stage: MoveStage, succeeded: bool) -> (res: MoveStage)
    ensures
        res == after_step(stage, succeeded),
{
    match stage {
        MoveStage::Renaming => if succeeded { MoveStage::Done } else { MoveStage::Copying },
        MoveStage::Copying => if succeeded { MoveStage::Deleting } else { MoveStage::Failed },
        MoveStage::Deleting => if succeeded { MoveStage::Done } else { MoveStage::Failed },
        MoveStage::Done => MoveStage::Done,
        MoveStage::Failed => MoveStage::Failed,
    }
}

/// Whether a stage still has a step to perform.
pub fn move_pending(stage: MoveStage) -> (res: bool)
    ensures
        res == (stage != MoveStage::Done && stage != MoveStage::Failed),
{
    match stage {
        MoveStage::Done | MoveStage::Failed => false,
        _ => true,
    }
}

/// A move ends in success exactly when the rename succeeds, or the copy
/// and the deletion after it both succeed; the source is deleted only
/// after a successful copy.
pub proof fn lemma_move_outcome(rename_ok: bool, copy_ok: bool, delete_ok: bool)
    ensures
        ({
            let s1 = after_step(MoveStage::Renaming, rename_ok);
            let s2 = if s1 == MoveStage::Copying { after_step(s1, copy_ok) } else { s1 };
            let s3 = if s2 == MoveStage::Deleting { after_step(s2, delete_ok) } else { s2 };
            &&& (s3 == MoveStage::Done) == (rename_ok || (copy_ok && delete_ok))
            &&& s3 == MoveStage::Done || s3 == MoveStage::Failed
            &&& s2 == MoveStage::Deleting ==> !rename_ok && copy_ok
        }),
{
}

/// How an entry is copied or removed: a directory with its whole tree, a
/// file on its own.
#[derive(Clone, Copy, Debug, PartialEq, Eq, Structural)]
pub enum Reach {
    Tree,
    Single,
}

/// How an entry is copied or removed, by whether it is a directory.
pub fn reach_of(is_dir: bool) -> (res: Reach)
    ensures
        res == if is_dir { Reach::Tree } else { Reach::Single },
{
    if is_dir { Reach::Tree } else { Reach::Single }
}

/// Where an entry named `name` is copied inside the target directory `to`.
pub fn copy_destination(to: &str, name: &str) -> (res: String)
    ensures
        res@ == joined(to@, name@),
{
    path_join(to, name)
}

/// The sum of `sizes`.
pub open spec fn sum(sizes: Seq<u64>) -> nat
    decreases sizes.len(),
{
    if sizes.len() == 0 {
        0
    } else {
        sum(sizes.drop_last()) + sizes.last() as nat
    }
}

proof fn lemma_sum_prefix(sizes: Seq<u64>, i: int)
    requires
        0 <= i <= sizes.len(),
    ensures
        sum(sizes.take(i)) <= sum(sizes),
    decreases sizes.len() - i,
{
    if i < sizes.len() {
        lemma_sum_prefix(sizes, i + 1);
        assert(sizes.take(i + 1).drop_last() =~= sizes.take(i));
    } else {
        assert(sizes.take(i) =~= sizes);
    }
}

/// The total size of a directory from the sizes of its entries (files by
/// length, subdirectories by their own totals).
pub fn total_size(sizes: &Vec<u64>) -> (res: u64)
    requires
        sum(sizes@) <= u64::MAX,
    ensures
        res == sum(sizes@),
{
    let mut total: u64 = 0;
    let mut i: usize = 0;
    while i < sizes.len()
        invariant
            i <= sizes.len(),
            total == sum(sizes@.take(i as int)),
            sum(sizes@) <= u64::MAX,
        decreases sizes.len() - i,
    {
        proof {
            assert(sizes@.take(i + 1).drop_last() =~= sizes@.take(i as int));
            lemma_sum_prefix(sizes@, i + 1);
        }
        total = total + sizes[i];
        i += 1;
    }
    assert(sizes@.take(sizes.len() as int) =~= sizes@);
    total
}

/// The size line of the properties window: the size as `format_size`
/// writes it, then the exact number of bytes.
pub fn size_line(bytes: u64) -> (res: String)
    ensures
        res@ == size_text(bytes as nat) + " ("@ + decimal(bytes as nat) + " bytes)"@,
{
    let s = format_size(bytes);
    let n = decimal_text(bytes);
    let mut res = concat3(s.as_str(), " (", n.as_str());
    res.append(" bytes)");
    res
}

/// The octal numeral of `n`.
pub open spec fn octal(n: nat) -> Seq<char>
    decreases n,
{
    if n < 8 {
        seq![digit_char(n)]
    } else {
        octal(n / 8).push(digit_char(n % 8))
    }
}

fn digit8(d: u32) -> (c: char)
    requires
        d < 8,
    ensures
        c == digit_char(d as nat),
{
    if d == 0 { '0' }
    else if d == 1 { '1' }
    else if d == 2 { '2' }
    else if d == 3 { '3' }
    else if d == 4 { '4' }
    else if d == 5 { '5' }
    else if d == 6 { '6' }
    else { '7' }
}

/// The octal numeral of `n`.
pub fn octal_text(n: u32) -> (res: String)
    ensures
        res@ == octal(n as nat),
{
    let mut rev: Vec<char> = Vec::new();
    let mut m: u32 = n;
    let ghost mut tail: Seq<char> = Seq::empty();
    while m >= 8
        invariant
            octal(n as nat) == octal(m as nat) + tail,
            rev@ == tail.reverse(),
        decreases m,
    {
        let d = digit8(m % 8);
        proof {
            assert(octal(m as nat) == octal((m / 8) as nat).push(d));
            assert(octal((m / 8) as nat).push(d) + tail == octal((m / 8) as nat) + (seq![d] + tail));
            assert((seq![d] + tail).reverse() =~= tail.reverse().push(d));
            tail = seq![d] + tail;
        }
        rev.push(d);
        m = m / 8;
    }
    let last = digit8(m);
    proof {
        assert(octal(m as nat) == seq![last]);
        assert((seq![last] + tail).reverse() =~= tail.reverse().push(last));
        tail = seq![last] + tail;
    }
    rev.push(last);
    let mut res = String::new();
    let mut i: usize = rev.len();
    while i > 0
        invariant
            i <= rev.len(),
            rev@ == tail.reverse(),
            tail == octal(n as nat),
            res@ == tail.take(rev.len() - i),
        decreases i,
    {
        i -= 1;
        res.push(rev[i]);
        proof {
            assert(tail.take(rev.len() - i) =~= tail.take(rev.len() - i - 1).push(tail[rev.len() - i - 1]));
        }
    }
    assert(tail.take(rev.len() as int) =~= tail);
    res
}

/// The access line of the properties window: the permission string, then
/// the permission bits in octal.
pub fn access_line(mode: u32) -> (res: String)
    ensures
        res@ == permission_text(mode) + " ("@ + octal((mode & 0o7777u32) as nat) + ")"@,
{
    let p = format_permissions(mode);
    let o = octal_text(mode & 0o7777);
    let mut res = concat3(p.as_str(), " (", o.as_str());
    res.append(")");
    res
}

/// The owner line of the properties window: the user's name (its number
/// when the name is unknown), a colon, and likewise the group.
pub fn owner_line(owner: Option<&str>, uid: u32, group: Option<&str>, gid: u32) -> (res: String)
    ensures
        res@ == (match owner { Some(o) => o@, None => decimal(uid as nat) })
            + ":"@ + (match group { Some(g) => g@, None => decimal(gid as nat) }),
{
    let o = match owner {
        Some(o) => owned(o),
        None => decimal_text(uid as u64),
    };
    let g = match group {
        Some(g) => owned(g),
        None => decimal_text(gid as u64),
    };
    concat3(o.as_str(), ":", g.as_str())
}

/// A path quoted for a POSIX shell: inside single quotes, each single quote
/// written as `'\''`.
pub fn shell_escape(path: &str) -> (res: String)
    ensures
        res@ == "'"@ + replace_text(path@, "'"@, "'\\''"@) + "'"@,
{
    let inner = replace(path, "'", "'\\''");
    concat3("'", inner.as_str(), "'")
}

/// The line the terminal panel is sent to change into `path` and clear the
/// screen.
pub fn cd_command(path: &str) -> (res: String)
    ensures
        res@ == "cd "@ + "'"@ + replace_text(path@, "'"@, "'\\''"@) + "'"@ + " && clear\n"@,
{
    let quoted = shell_escape(path);
    concat3("cd ", quoted.as_str(), " && clear\n")
}

} // verus!

verus! {

/// An octal numeral is made of the digits '0' to '7' and reads back, in
/// base eight, as the number it was made from.
pub proof fn lemma_octal_reads_back(n: nat)
    ensures
        crate::text::numeral_value(octal(n), 8) == n,
        octal(n).len() >= 1,
        forall|i: int| 0 <= i < octal(n).len() ==> '0' <= #[trigger] octal(n)[i] <= '7',
    decreases n,
{
    if n < 8 {
        assert(digit_char(n) as int - '0' as int == n);
        assert(octal(n).drop_last() =~= Seq::<char>::empty());
        assert(crate::text::numeral_value(Seq::<char>::empty(), 8) == 0);
        assert(crate::text::numeral_value(octal(n), 8) == 0 * 8 + (octal(n).last() as int - '0' as int));
    } else {
        lemma_octal_reads_back(n / 8);
        let pre = octal(n / 8);
        assert(octal(n).drop_last() =~= pre);
        assert(digit_char(n % 8) as int - '0' as int == n % 8);
        assert(octal(n).last() == digit_char(n % 8));
        assert(crate::text::numeral_value(octal(n), 8) == crate::text::numeral_value(pre, 8) * 8 + (n % 8));
        assert((n / 8) * 8 + n % 8 == n) by (nonlinear_arith);
        assert(crate::text::numeral_value(pre, 8) == n / 8);
        assert forall|i: int| 0 <= i < octal(n).len() implies '0' <= #[trigger] octal(n)[i] <= '7' by {
            if i < pre.len() {
                assert(octal(n)[i] == pre[i]);
            }
        }
    }
}

} // verus!

verus! {

/// The total of a list of sizes adds up its parts: nothing for no sizes,
/// a single size for itself, and two lists joined for the totals of each.
pub proof fn lemma_sum_adds(s: Seq<u64>, t: Seq<u64>, x: u64)
    ensures
        sum(Seq::empty()) == 0,
        sum(seq![x]) == x,
        sum(s + t) == sum(s) + sum(t),
    decreases t.len(),
{
    assert(seq![x].drop_last() =~= Seq::<u64>::empty());
    if t.len() > 0 {
        lemma_sum_adds(s, t.drop_last(), x);
        assert((s + t).drop_last() =~= s + t.drop_last());
    } else {
        assert(s + t =~= s);
    }
}

} // verus!
