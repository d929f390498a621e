//! The shared configuration of the daemon.
//!
//! Every connection works on one configuration. It is kept in a cell that one
//! connection at a time can hold: to read the configuration or to replace it a
//! connection enters the cell, and no other connection can enter until it has
//! left. Reading and writing take the same way in; there is no second reader.
//! The configuration is replaced as a whole value.

use vstd::prelude::*;
use crate::config::{Config, ConfigView};

verus! {

/// The cell that holds the configuration.
pub struct ConfigCell {
    config: Config,
    holder: Option<u64>,
}

/// The mathematical content of the cell: the configuration, and the connection
/// that holds the cell, if one does.
pub struct CellView {
    pub config: ConfigView,
    pub holder: Option<u64>,
}

/// What a connection can ask of the cell.
pub enum Op {
    /// Enter the cell.
    Enter(u64),
    /// Leave the cell.
    Leave(u64),
    /// Replace the configuration.
    Replace(u64, ConfigView),
}

impl Op {
    /// The connection that asks.
    pub open spec fn asker(self) -> u64 {
        match self {
            Op::Enter(c) => c,
            Op::Leave(c) => c,
            Op::Replace(c, _) => c,
        }
    }
}

impl CellView {
    /// Whether the connection holds the cell.
    pub open spec fn held_by(self, connection: u64) -> bool {
        self.holder == Some(connection)
    }

    /// Whether the cell grants what is asked: entering while nobody holds it,
    /// and leaving or replacing to the connection that holds it.
    pub open spec fn grants(self, op: Op) -> bool {
        match op {
            Op::Enter(_) => self.holder is None,
            Op::Leave(c) => self.held_by(c),
            Op::Replace(c, _) => self.held_by(c),
        }
    }

    /// The cell after something was asked of it. What is not granted changes
    /// nothing.
    pub open spec fn apply(self, op: Op) -> CellView {
        if self.grants(op) {
            match op {
                Op::Enter(c) => CellView { config: self.config, holder: Some(c) },
                Op::Leave(_) => CellView { config: self.config, holder: None },
                Op::Replace(_, config) => CellView { config, holder: self.holder },
            }
        } else {
            self
        }
    }

    /// The cell after a run of requests, taken in their order.
    pub open spec fn run(self, ops: Seq<Op>) -> CellView
        decreases ops.len(),
    {
        if ops.len() == 0 {
            self
        } else {
            self.run(ops.drop_last()).apply(ops.last())
        }
    }
}

/// The configuration of the cell is always one that was put there as a whole:
/// after any run of requests, in any interleaving of any number of
/// connections, it is the configuration the run began with or the one that a
/// request of the run asked to put in its place.
pub proof fn lemma_configuration_is_whole(cell: CellView, ops: Seq<Op>)
    ensures
        cell.run(ops).config == cell.config || exists|i: int|
            0 <= i < ops.len() && #[trigger] ops[i] == Op::Replace(
                ops[i].asker(),
                cell.run(ops).config,
            ),
    decreases ops.len(),
{
    if ops.len() > 0 {
        let before = ops.drop_last();
        lemma_configuration_is_whole(cell, before);
        let mid = cell.run(before);
        if mid.grants(ops.last()) && ops.last() is Replace {
            let last: int = ops.len() - 1;
            assert(ops[last] == Op::Replace(ops[last].asker(), cell.run(ops).config));
        } else {
            assert(cell.run(ops).config == mid.config);
            if mid.config != cell.config {
                let i = choose|i: int|
                    0 <= i < before.len() && #[trigger] before[i] == Op::Replace(
                        before[i].asker(),
                        mid.config,
                    );
                assert(ops[i] == before[i]);
            }
        }
    }
}

/// Two connections that each replace the configuration, however their
/// requests interleave with each other and with the requests of others that
/// replace nothing: once one of the two replacements was granted, what is read
/// afterwards is the first configuration in full or the second in full.
pub proof fn lemma_one_of_two(
    cell: CellView,
    ops: Seq<Op>,
    first: ConfigView,
    second: ConfigView,
)
    requires
        forall|i: int|
            0 <= i < ops.len() && #[trigger] ops[i] is Replace ==> ops[i]->Replace_1 == first
                || ops[i]->Replace_1 == second,
        exists|i: int|
            0 <= i < ops.len() && #[trigger] ops[i] is Replace && cell.run(ops.take(i)).grants(
                ops[i],
            ),
    ensures
        cell.run(ops).config == first || cell.run(ops).config == second,
    decreases ops.len(),
{
    let granted = choose|i: int|
        0 <= i < ops.len() && #[trigger] ops[i] is Replace && cell.run(ops.take(i)).grants(ops[i]);
    let before = ops.drop_last();
    let last: int = ops.len() - 1;
    assert(ops.take(last) == before);
    if granted < last {
        assert(before[granted] == ops[granted]);
        assert(before.take(granted) == ops.take(granted));
        assert forall|i: int| 0 <= i < before.len() && #[trigger] before[i] is Replace implies
            before[i]->Replace_1 == first || before[i]->Replace_1 == second by {
            assert(before[i] == ops[i]);
        }
        lemma_one_of_two(cell, before, first, second);
    }
}

/// While one connection holds the cell and does not leave, nothing that any
/// other connection asks is granted: the holder stays the holder, and the
/// configuration stays what the holder made it.
pub proof fn lemma_held_cell_is_exclusive(cell: CellView, holder: u64, ops: Seq<Op>)
    requires
        cell.held_by(holder),
        forall|i: int| 0 <= i < ops.len() ==> (#[trigger] ops[i]).asker() != holder,
    ensures
        cell.run(ops) == cell,
        forall|i: int| 0 <= i < ops.len() ==> !cell.run(ops.take(i)).grants(#[trigger] ops[i]),
    decreases ops.len(),
{
    if ops.len() > 0 {
        let before = ops.drop_last();
        lemma_held_cell_is_exclusive(cell, holder, before);
        assert(ops.last().asker() != holder);
        assert forall|i: int| 0 <= i < ops.len() implies !cell.run(ops.take(i)).grants(
            #[trigger] ops[i],
        ) by {
            if i < ops.len() - 1 {
                assert(before.take(i) == ops.take(i));
                assert(before[i] == ops[i]);
            } else {
                assert(ops.take(i) == before);
            }
        }
    } else {
        assert forall|i: int| 0 <= i < ops.len() implies !cell.run(ops.take(i)).grants(
            #[trigger] ops[i],
        ) by {
        }
    }
}

/// A connection that waits for the cell gets in only after the holder has
/// left: if a request to enter is granted in the course of a run that begins
/// with the cell held, the holder's request to leave stands earlier in the run.
pub proof fn lemma_enter_after_leave(cell: CellView, holder: u64, ops: Seq<Op>, at: int)
    requires
        cell.held_by(holder),
        0 <= at < ops.len(),
        ops[at] is Enter,
        cell.run(ops.take(at)).grants(ops[at]),
    ensures
        exists|i: int| 0 <= i < at && #[trigger] ops[i] == Op::Leave(holder),
{
    lemma_held_until_leave(cell, holder, ops.take(at));
    let i = choose|i: int| 0 <= i < ops.take(at).len() && #[trigger] ops.take(at)[i] == Op::Leave(holder);
    assert(ops[i] == ops.take(at)[i]);
}

proof fn lemma_held_until_leave(cell: CellView, holder: u64, ops: Seq<Op>)
    requires
        cell.held_by(holder),
    ensures
        cell.run(ops).held_by(holder) || exists|i: int|
            0 <= i < ops.len() && #[trigger] ops[i] == Op::Leave(holder),
    decreases ops.len(),
{
    if ops.len() > 0 {
        let before = ops.drop_last();
        lemma_held_until_leave(cell, holder, before);
        let last: int = ops.len() - 1;
        if cell.run(before).held_by(holder) {
            if !cell.run(ops).held_by(holder) {
                assert(ops[last] == Op::Leave(holder));
            }
        } else {
            let i = choose|i: int| 0 <= i < before.len() && #[trigger] before[i] == Op::Leave(holder);
            assert(ops[i] == before[i]);
        }
    }
}

impl View for ConfigCell {
    type V = CellView;

    closed spec fn view(&self) -> CellView {
        CellView { config: self.config@, holder: self.holder }
    }
}

impl ConfigCell {
    /// A cell that holds `config` and that nobody has entered.
    pub fn new(config: Config) -> (cell: Self)
        ensures
            cell@ == (CellView { config: config@, holder: None }),
    {
        ConfigCell { config, holder: None }
    }

    /// The connection that holds the cell.
    pub fn holder(&self) -> (holder: Option<u64>)
        ensures
            holder == self@.holder,
    {
        self.holder
    }

    /// Asks to enter. The cell is entered if nobody holds it, and not
    /// otherwise, not even by the connection that holds it already.
    pub fn try_enter(&mut self, connection: u64) -> (entered: bool)
        ensures
            entered == old(self)@.grants(Op::Enter(connection)),
            final(self)@ == old(self)@.apply(Op::Enter(connection)),
    {
        match self.holder {
            None => {
                self.holder = Some(connection);
                true
            },
            Some(_) => false,
        }
    }

    /// Asks to leave. Only the connection that holds the cell can leave it.
    pub fn leave(&mut self, connection: u64) -> (left: bool)
        ensures
            left == old(self)@.grants(Op::Leave(connection)),
            final(self)@ == old(self)@.apply(Op::Leave(connection)),
    {
        if self.is_held_by(connection) {
            self.holder = None;
            true
        } else {
            false
        }
    }

    /// Whether the connection holds the cell.
    pub fn is_held_by(&self, connection: u64) -> (held: bool)
        ensures
            held == self@.held_by(connection),
    {
        match self.holder {
            Some(h) => h == connection,
            None => false,
        }
    }

    /// The configuration, for the connection that holds the cell.
    pub fn get(&self, connection: u64) -> (config: Option<&Config>)
        ensures
            config is Some <==> self@.held_by(connection),
            config is Some ==> config->0@ == self@.config,
    {
        if self.is_held_by(connection) {
            Some(&self.config)
        } else {
            None
        }
    }

    /// Puts `config` in the place of the configuration, as a whole, for the
    /// connection that holds the cell. For any other connection nothing
    /// changes, and the configuration offered is handed back.
    pub fn replace(&mut self, connection: u64, config: Config) -> (refused: Option<Config>)
        ensures
            final(self)@ == old(self)@.apply(Op::Replace(connection, config@)),
            refused is None <==> old(self)@.grants(Op::Replace(connection, config@)),
            refused is Some ==> refused->0 == config,
    {
        if self.is_held_by(connection) {
            self.config = config;
            None
        } else {
            Some(config)
        }
    }
}

} // verus!
