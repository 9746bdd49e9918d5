//! The access actor's command protocol and its sequential processing.
//!
//! Handlers build a [`Command`]; the actor executes commands one at a time
//! against the table and answers every command with exactly one [`Reply`].
//! [`process`] is one actor step; [`run`] drains a whole batch in arrival
//! order, which is the actor loop with the channel plumbing stripped away:
//! whoever drives it feeds commands in and carries each reply back to its
//! requester.

use vstd::prelude::*;

use crate::db::contains_key;
use crate::db::delete_model;
use crate::db::insert_model;
use crate::db::lookup;
use crate::db::maps_view;
use crate::db::update_model;
use crate::db::Store;
use crate::db::StoreError;
use crate::db::TableView;
use crate::db::UrlMap;

verus! {

/// One request to the actor: which table operation to perform, with its
/// arguments. The reply destination travels beside the command, outside this
/// core.
#[derive(Debug)]
pub enum Command {
    GetUrlMaps,
    GetUrlMap { key: String },
    CreateUrlMap { url_map: UrlMap },
    UpdateUrlMap { url_map: UrlMap },
    DeleteUrlMap { key: String },
}

/// The actor's answer to one command: the listing, the one mapping the
/// operation touched, or the store's error, forwarded verbatim.
#[derive(Debug)]
pub enum Reply {
    UrlMaps(Vec<UrlMap>),
    UrlMap(UrlMap),
    Failed(StoreError),
}

/// The table a command leaves behind. Reads leave it as it was; writes act
/// as the table's insert, update and delete say.
pub open spec fn next_state(s: TableView, c: Command) -> TableView {
    match c {
        Command::GetUrlMaps => s,
        Command::GetUrlMap { .. } => s,
        Command::CreateUrlMap { url_map } => insert_model(s, url_map.key@, url_map.url@),
        Command::UpdateUrlMap { url_map } => update_model(s, url_map.key@, url_map.url@),
        Command::DeleteUrlMap { key } => delete_model(s, key@),
    }
}

/// The one reply a command executed against table `s` must earn: the payload
/// on success, and the store error exactly when the store refuses.
pub open spec fn reply_matches(s: TableView, c: Command, r: Reply) -> bool {
    match c {
        Command::GetUrlMaps => (r matches Reply::UrlMaps(ms) && maps_view(ms@) == s),
        Command::GetUrlMap { key } => (match lookup(s, key@) {
            Some(u) => r matches Reply::UrlMap(m) && m.key@ == key@ && m.url@ == u,
            None => r == Reply::Failed(StoreError::NotFound),
        }),
        Command::CreateUrlMap { url_map } => (if contains_key(s, url_map.key@) {
            r == Reply::Failed(StoreError::DuplicateKey)
        } else {
            r matches Reply::UrlMap(m) && m.key@ == url_map.key@ && m.url@ == url_map.url@
        }),
        Command::UpdateUrlMap { url_map } => (if contains_key(s, url_map.key@) {
            r matches Reply::UrlMap(m) && m.key@ == url_map.key@ && m.url@ == url_map.url@
        } else {
            r == Reply::Failed(StoreError::NotFound)
        }),
        Command::DeleteUrlMap { key } => (match lookup(s, key@) {
            Some(u) => r matches Reply::UrlMap(m) && m.key@ == key@ && m.url@ == u,
            None => r == Reply::Failed(StoreError::NotFound),
        }),
    }
}

/// One actor step: execute `cmd` against the table and produce its one
/// reply. Store failures come back as a reply, never as a panic, so a step
/// can always be followed by the next.
pub fn process(store: &mut Store, cmd: Command) -> (r: Reply)
    requires
        old(store).wf(),
    ensures
        final(store).wf(),
        final(store)@ == next_state(old(store)@, cmd),
        reply_matches(old(store)@, cmd, r),
{
    match cmd {
        Command::GetUrlMaps => Reply::UrlMaps(store.list()),
        Command::GetUrlMap { key } => match store.get(&key) {
            Ok(m) => Reply::UrlMap(m),
            Err(e) => Reply::Failed(e),
        },
        Command::CreateUrlMap { url_map } => match store.insert(url_map) {
            Ok(m) => Reply::UrlMap(m),
            Err(e) => Reply::Failed(e),
        },
        Command::UpdateUrlMap { url_map } => match store.update(url_map) {
            Ok(m) => Reply::UrlMap(m),
            Err(e) => Reply::Failed(e),
        },
        Command::DeleteUrlMap { key } => match store.delete(&key) {
            Ok(m) => Reply::UrlMap(m),
            Err(e) => Reply::Failed(e),
        },
    }
}

/// The table left after executing `cmds` in order, one at a time.
pub open spec fn state_after(s: TableView, cmds: Seq<Command>) -> TableView
    decreases cmds.len(),
{
    if cmds.len() == 0 {
        s
    } else {
        state_after(next_state(s, cmds[0]), cmds.drop_first())
    }
}

/// Executing one more command after a batch is one more step on the batch's
/// final table.
pub proof fn lemma_state_after_snoc(s: TableView, cmds: Seq<Command>, c: Command)
    ensures
        state_after(s, cmds.push(c)) == next_state(state_after(s, cmds), c),
    decreases cmds.len(),
{
    if cmds.len() == 0 {
        let q = cmds.push(c);
        assert(q[0] == c);
        assert(q.drop_first() =~= Seq::<Command>::empty());
        assert(state_after(s, q) == state_after(next_state(s, q[0]), q.drop_first()));
        assert(state_after(next_state(s, c), q.drop_first()) == next_state(s, c));
    } else {
        assert(cmds.push(c)[0] == cmds[0]);
        assert(cmds.push(c).drop_first() =~= cmds.drop_first().push(c));
        lemma_state_after_snoc(next_state(s, cmds[0]), cmds.drop_first(), c);
        assert(state_after(s, cmds.push(c))
            == state_after(next_state(s, cmds[0]), cmds.drop_first().push(c)));
    }
}

/// The actor loop on a batch: commands are executed strictly in arrival
/// order, each command earns exactly one reply, the i-th reply is correct
/// for the table the first i commands left behind, and the final table is
/// the fold of all the commands.
pub fn run(store: &mut Store, cmds: Vec<Command>) -> (replies: Vec<Reply>)
    requires
        old(store).wf(),
    ensures
        final(store).wf(),
        replies@.len() == cmds@.len(),
        final(store)@ == state_after(old(store)@, cmds@),
        forall|i: int| 0 <= i < cmds@.len()
            ==> reply_matches(state_after(old(store)@, cmds@.take(i)), cmds@[i], #[trigger] replies@[i]),
{
    let ghost all = cmds@;
    let ghost init = old(store)@;
    let mut pending = cmds;
    let mut replies: Vec<Reply> = Vec::new();
    proof {
        assert(all.take(0) =~= Seq::<Command>::empty());
    }
    while pending.len() > 0
        invariant
            store.wf(),
            replies@.len() + pending@.len() == all.len(),
            pending@ == all.skip(replies@.len() as int),
            store@ == state_after(init, all.take(replies@.len() as int)),
            forall|i: int| 0 <= i < replies@.len()
                ==> reply_matches(state_after(init, all.take(i)), all[i], #[trigger] replies@[i]),
        decreases pending@.len(),
    {
        let ghost k = replies@.len() as int;
        let cmd = pending.remove(0);
        proof {
            assert(cmd == all[k]);
            assert(pending@ =~= all.skip(k + 1));
            assert(all.take(k + 1) =~= all.take(k).push(all[k]));
            lemma_state_after_snoc(init, all.take(k), all[k]);
        }
        let reply = process(store, cmd);
        replies.push(reply);
    }
    proof {
        assert(all.take(replies@.len() as int) =~= all);
    }
    replies
}

/// The status a handler answers with when a command's reply is a store
/// error: reads of one key are answered "not found", writes "unprocessable",
/// and the listing a server fault.
pub open spec fn spec_error_status(cmd: Command) -> u16 {
    match cmd {
        Command::GetUrlMaps => 500,
        Command::GetUrlMap { .. } => 404,
        Command::CreateUrlMap { .. } => 422,
        Command::UpdateUrlMap { .. } => 422,
        Command::DeleteUrlMap { .. } => 404,
    }
}

/// The HTTP status for a failed command, per [`spec_error_status`].
pub fn error_status(cmd: &Command) -> (s: u16)
    ensures
        s == spec_error_status(*cmd),
{
    match cmd {
        Command::GetUrlMaps => 500,
        Command::GetUrlMap { .. } => 404,
        Command::CreateUrlMap { .. } => 422,
        Command::UpdateUrlMap { .. } => 422,
        Command::DeleteUrlMap { .. } => 404,
    }
}

} // verus!
