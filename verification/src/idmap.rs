//! Rows of the uid and gid maps of a user namespace, and the two forms in
//! which they are handed over: the text of a map file and the arguments of
//! a helper command.
use vstd::prelude::*;
use crate::decimal::{decimal, push_decimal, format_decimal};
use crate::ffi_util::views;

verus! {

/// A row of the uid map.
#[derive(Debug, Clone, Copy, PartialEq, Eq, Structural)]
pub struct UidMap {
    /// First uid inside the new namespace.
    pub inside_uid: u32,
    /// First uid in the namespace of the parent.
    pub outside_uid: u32,
    /// How many consecutive uids the row maps.
    pub count: u32,
}

/// A row of the gid map.
#[derive(Debug, Clone, Copy, PartialEq, Eq, Structural)]
pub struct GidMap {
    /// First gid inside the new namespace.
    pub inside_gid: u32,
    /// First gid in the namespace of the parent.
    pub outside_gid: u32,
    /// How many consecutive gids the row maps.
    pub count: u32,
}

/// A row of an id map, as the three numbers it is written with.
pub struct IdRow {
    pub inside: u32,
    pub outside: u32,
    pub count: u32,
}

/// A row of a uid or gid map.
pub trait IdMapRow: Sized {
    spec fn spec_row(self) -> IdRow;

    fn row(&self) -> (r: IdRow)
        ensures
            r == self.spec_row(),
    ;
}

impl IdMapRow for UidMap {
    open spec fn spec_row(self) -> IdRow {
        IdRow { inside: self.inside_uid, outside: self.outside_uid, count: self.count }
    }

    fn row(&self) -> (r: IdRow) {
        IdRow { inside: self.inside_uid, outside: self.outside_uid, count: self.count }
    }
}

impl IdMapRow for GidMap {
    open spec fn spec_row(self) -> IdRow {
        IdRow { inside: self.inside_gid, outside: self.outside_gid, count: self.count }
    }

    fn row(&self) -> (r: IdRow) {
        IdRow { inside: self.inside_gid, outside: self.outside_gid, count: self.count }
    }
}

/// The line of a map file for one row: the three numbers in decimal,
/// separated by single spaces and ended by a newline.
pub open spec fn row_line(r: IdRow) -> Seq<u8> {
    decimal(r.inside as nat) + seq![32u8] + decimal(r.outside as nat) + seq![32u8] + decimal(
        r.count as nat,
    ) + seq![10u8]
}

/// The text of a map file for the first `n` rows of `rows`: one line per
/// row, in order.
pub open spec fn map_text<M: IdMapRow>(rows: Seq<M>, n: nat) -> Seq<u8>
    decreases n,
{
    if n == 0 || n > rows.len() {
        Seq::empty()
    } else {
        map_text(rows, (n - 1) as nat) + row_line(rows[n - 1].spec_row())
    }
}

/// The arguments that a helper command gets for one row.
pub open spec fn row_args(r: IdRow) -> Seq<Seq<u8>> {
    seq![decimal(r.inside as nat), decimal(r.outside as nat), decimal(r.count as nat)]
}

/// The arguments that a helper command gets after the pid, for the first
/// `n` rows of `rows`.
pub open spec fn rows_args<M: IdMapRow>(rows: Seq<M>, n: nat) -> Seq<Seq<u8>>
    decreases n,
{
    if n == 0 || n > rows.len() {
        Seq::empty()
    } else {
        rows_args(rows, (n - 1) as nat) + row_args(rows[n - 1].spec_row())
    }
}

/// The arguments of a helper command after its own path: the pid of the
/// child, then inside id, outside id and count of each row.
pub open spec fn spec_helper_args<M: IdMapRow>(pid: i32, rows: Seq<M>) -> Seq<Seq<u8>> {
    seq![decimal(pid as nat)] + rows_args(rows, rows.len())
}

/// The contents of the map file for `rows`.
pub fn id_map_text<M: IdMapRow>(rows: &Vec<M>) -> (r: Vec<u8>)
    ensures
        r@ == map_text(rows@, rows@.len()),
{
    let mut out: Vec<u8> = Vec::new();
    let mut i: usize = 0;
    while i < rows.len()
        invariant
            0 <= i <= rows.len(),
            out@ == map_text(rows@, i as nat),
        decreases rows.len() - i,
    {
        let r = rows[i].row();
        let ghost before = out@;
        push_decimal(&mut out, r.inside as u64);
        out.push(32u8);
        push_decimal(&mut out, r.outside as u64);
        out.push(32u8);
        push_decimal(&mut out, r.count as u64);
        out.push(10u8);
        assert(out@ =~= before + row_line(r));
        i = i + 1;
    }
    out
}

/// The arguments with which the helper that writes the map of the child
/// `pid` is run, without the path of the helper itself.
pub fn helper_args<M: IdMapRow>(pid: i32, rows: &Vec<M>) -> (r: Vec<Vec<u8>>)
    requires
        pid >= 0,
    ensures
        views(r@) == spec_helper_args(pid, rows@),
{
    let mut out: Vec<Vec<u8>> = Vec::new();
    out.push(format_decimal(pid as u64));
    assert(views(out@) =~= seq![decimal(pid as nat)]);
    let mut i: usize = 0;
    while i < rows.len()
        invariant
            0 <= i <= rows.len(),
            pid >= 0,
            views(out@) == seq![decimal(pid as nat)] + rows_args(rows@, i as nat),
        decreases rows.len() - i,
    {
        let r = rows[i].row();
        let ghost before = views(out@);
        out.push(format_decimal(r.inside as u64));
        out.push(format_decimal(r.outside as u64));
        out.push(format_decimal(r.count as u64));
        assert(views(out@) =~= before + row_args(r));
        i = i + 1;
    }
    out
}

} // verus!
