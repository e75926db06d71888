//! Which bots run, and how a bot is brought up.
//!
//! [`Supervisor`] knows the running bots by `project_id`. [`Supervisor::reconcile`]
//! compares them with a configuration and says what to change: start what is new, stop
//! what is gone, restart what has other credentials, and leave the rest alone, so that
//! a reload disturbs no live session. Starting and stopping is left to the caller.

use crate::backoff;
use crate::backoff::Backoff;
use crate::delay;
use crate::hashing;
use crate::hashing::feed;
use crate::metrics;
use crate::metrics::{set_active_bots, Sample, SampleView};
use crate::model::{Client, ClientView, Config};
use crate::spectrum;
use crate::spectrum::{spectrum_cloud_url, SpectrumClient, SpectrumError};
use crate::text;
use crate::text::same;
use crate::webhook;
use crate::webhook::{WebhookClient, WebhookError};
use std::collections::hash_map::DefaultHasher;
use std::hash::Hasher;
use std::time::Duration;
use vstd::prelude::*;
use vstd::std_specs::hash::DefaultHasherAdditionalSpecFns;

verus! {

/// Platform label that the super-webhook edge is addressed by.
pub const PLATFORM: &'static str = "discord";

/// The hash of the credentials of a client.
pub open spec fn credentials_hash(client: ClientView) -> u64 {
    DefaultHasher::spec_finish(
        hashing::str_writes(client.webhook_secret) + hashing::str_writes(client.project_secret)
            + hashing::str_writes(client.bot_token),
    )
}

/// The hash of the credentials of `client`. The project is not among them: bots are
/// known by it. Other credentials mean a restart.
pub fn config_hash(client: &Client) -> (r: u64)
    ensures
        r == credentials_hash(client@),
{
    let mut hasher = DefaultHasher::new();
    feed(&mut hasher, client.webhook_secret.as_str());
    feed(&mut hasher, client.project_secret.as_str());
    feed(&mut hasher, client.bot_token.as_str());
    proof {
        assert(hasher@ =~= hashing::str_writes(client.webhook_secret@) + hashing::str_writes(
            client.project_secret@,
        ) + hashing::str_writes(client.bot_token@));
    }
    hasher.finish()
}

/// Clients that differ in their project alone have the same hash.
pub proof fn law_config_hash_ignores_project_id(client: ClientView, project_id: Seq<char>)
    ensures
        credentials_hash(ClientView { project_id, ..client }) == credentials_hash(client),
{
}

/// Whether what is written of a text into a hasher, whatever is written next, tells which
/// text it is.
pub open spec fn writes_tell_texts() -> bool {
    forall|a: Seq<char>, b: Seq<char>, p: Seq<Seq<u8>>, q: Seq<Seq<u8>>|
        #[trigger] (hashing::str_writes(a) + p) == #[trigger] (hashing::str_writes(b) + q) ==> a
            == b
}

/// What is hashed of a client are its three credentials, one after the other and each in
/// full. So clients with other credentials hash other writes, as far as what is written of
/// a text tells the text.
pub proof fn law_credentials_are_hashed_in_full(a: ClientView, b: ClientView)
    ensures
        ({
            let written = |c: ClientView|
                hashing::str_writes(c.webhook_secret) + hashing::str_writes(c.project_secret)
                    + hashing::str_writes(c.bot_token);
            &&& credentials_hash(a) == DefaultHasher::spec_finish(written(a))
            &&& credentials_hash(b) == DefaultHasher::spec_finish(written(b))
            &&& writes_tell_texts() && (a.webhook_secret != b.webhook_secret || a.project_secret
                != b.project_secret || a.bot_token != b.bot_token) ==> written(a) != written(b)
        }),
{
    lemma_writes_tell_credentials(a, b);
}

proof fn lemma_writes_tell_credentials(a: ClientView, b: ClientView)
    ensures
        ({
            let of_a = hashing::str_writes(a.webhook_secret) + hashing::str_writes(a.project_secret)
                + hashing::str_writes(a.bot_token);
            let of_b = hashing::str_writes(b.webhook_secret) + hashing::str_writes(b.project_secret)
                + hashing::str_writes(b.bot_token);
            writes_tell_texts() && of_a == of_b ==> a.webhook_secret == b.webhook_secret
                && a.project_secret == b.project_secret && a.bot_token == b.bot_token
        }),
{
    let (wa, wb) = (hashing::str_writes(a.webhook_secret), hashing::str_writes(b.webhook_secret));
    let (pa, pb) = (hashing::str_writes(a.project_secret), hashing::str_writes(b.project_secret));
    let (ta, tb) = (hashing::str_writes(a.bot_token), hashing::str_writes(b.bot_token));
    if writes_tell_texts() && wa + pa + ta == wb + pb + tb {
        assert(wa + pa + ta =~= wa + (pa + ta));
        assert(wb + pb + tb =~= wb + (pb + tb));
        assert(wa == wb);
        assert((wa + (pa + ta)).skip(wa.len() as int) =~= pa + ta);
        assert((wb + (pb + tb)).skip(wb.len() as int) =~= pb + tb);
        assert(pa + ta == pb + tb);
        assert(pa == pb);
        assert((pa + ta).skip(pa.len() as int) =~= ta);
        assert((pb + tb).skip(pb.len() as int) =~= tb);
        assert(ta + seq![] =~= ta);
        assert(tb + seq![] =~= tb);
        assert(ta + Seq::<Seq<u8>>::empty() == tb + Seq::<Seq<u8>>::empty());
    }
}

/// A list of entries as a table. The last of the entries with one key wins.
pub open spec fn table<V>(entries: Seq<(Seq<char>, V)>) -> Map<Seq<char>, V>
    decreases entries.len(),
{
    if entries.len() == 0 {
        Map::empty()
    } else {
        table(entries.drop_last()).insert(entries.last().0, entries.last().1)
    }
}

/// Whether no two entries have one key.
pub open spec fn distinct<V>(entries: Seq<(Seq<char>, V)>) -> bool {
    forall|i: int, j: int|
        0 <= i < j < entries.len() ==> (#[trigger] entries[i]).0 != (#[trigger] entries[j]).0
}

proof fn lemma_table_keys<V>(entries: Seq<(Seq<char>, V)>)
    ensures
        forall|key: Seq<char>| #[trigger]
            table(entries).contains_key(key) ==> exists|i: int|
                0 <= i < entries.len() && (#[trigger] entries[i]).0 == key,
        forall|i: int|
            0 <= i < entries.len() ==> table(entries).contains_key((#[trigger] entries[i]).0),
        table(entries).dom().finite(),
        table(entries).len() <= entries.len(),
    decreases entries.len(),
{
    if entries.len() > 0 {
        let front = entries.drop_last();
        lemma_table_keys(front);
        assert forall|key: Seq<char>| #[trigger] table(entries).contains_key(key) implies exists|
            i: int,
        |
            0 <= i < entries.len() && (#[trigger] entries[i]).0 == key by {
            if key == entries.last().0 {
                assert(entries[entries.len() - 1].0 == key);
            } else {
                assert(table(front).contains_key(key));
                let i = choose|i: int| 0 <= i < front.len() && (#[trigger] front[i]).0 == key;
                assert(entries[i].0 == key);
            }
        }
        assert forall|i: int| 0 <= i < entries.len() implies table(entries).contains_key(
            (#[trigger] entries[i]).0,
        ) by {
            if i < front.len() {
                assert(front[i] == entries[i]);
            }
        }
    }
}

proof fn lemma_table_values<V>(entries: Seq<(Seq<char>, V)>)
    requires
        distinct(entries),
    ensures
        forall|i: int|
            0 <= i < entries.len() ==> table(entries)[(#[trigger] entries[i]).0] == entries[i].1,
        table(entries).len() == entries.len(),
    decreases entries.len(),
{
    if entries.len() > 0 {
        let front = entries.drop_last();
        assert(distinct(front)) by {
            assert forall|i: int, j: int| 0 <= i < j < front.len() implies (#[trigger] front[i]).0
                != (#[trigger] front[j]).0 by {
                assert(entries[i] == front[i] && entries[j] == front[j]);
            }
        }
        lemma_table_values(front);
        lemma_table_keys(front);
        assert forall|i: int| 0 <= i < entries.len() implies table(entries)[(
        #[trigger] entries[i]).0] == entries[i].1 by {
            if i < front.len() {
                assert(front[i] == entries[i]);
                assert(entries[entries.len() - 1].0 != entries[i].0);
            }
        }
        assert(!table(front).contains_key(entries.last().0)) by {
            if table(front).contains_key(entries.last().0) {
                let i = choose|i: int|
                    0 <= i < front.len() && (#[trigger] front[i]).0 == entries.last().0;
                assert(entries[i] == front[i]);
                assert(entries[i].0 != entries[entries.len() - 1].0);
            }
        }
    }
}

/// Clients as entries, by project.
pub open spec fn client_entries(clients: Seq<Client>) -> Seq<(Seq<char>, ClientView)> {
    clients.map_values(|c: Client| (c.project_id@, c@))
}

/// The bots that a configuration asks for, by project. The last of the entries for one
/// project wins.
pub open spec fn desired(config: Config) -> Map<Seq<char>, ClientView> {
    table(client_entries(config.bots@))
}

/// The running bots once they are what is asked for: for each project the hash of its
/// credentials.
pub open spec fn settled(want: Map<Seq<char>, ClientView>) -> Map<Seq<char>, u64> {
    want.map_values(|c: ClientView| credentials_hash(c))
}

/// Whether a bot runs with the credentials that are asked for.
pub open spec fn is_current(
    running: Map<Seq<char>, u64>,
    want: Map<Seq<char>, ClientView>,
    id: Seq<char>,
) -> bool {
    running.contains_key(id) && want.contains_key(id) && running[id] == credentials_hash(want[id])
}

/// Whether a bot is to be stopped.
pub open spec fn is_stopped(
    running: Map<Seq<char>, u64>,
    want: Map<Seq<char>, ClientView>,
    id: Seq<char>,
) -> bool {
    running.contains_key(id) && !is_current(running, want, id)
}

/// Whether a bot is to be started.
pub open spec fn is_started(
    running: Map<Seq<char>, u64>,
    want: Map<Seq<char>, ClientView>,
    id: Seq<char>,
) -> bool {
    want.contains_key(id) && !is_current(running, want, id)
}

/// A new bot is started, one that is gone is stopped, one with other credentials (told
/// by their hash) is stopped and started, and any other one is left alone.
pub proof fn law_reconcile_is_minimal(
    running: Map<Seq<char>, u64>,
    want: Map<Seq<char>, ClientView>,
    id: Seq<char>,
)
    ensures
        is_stopped(running, want, id) <==> running.contains_key(id) && (!want.contains_key(id)
            || running[id] != credentials_hash(want[id])),
        is_started(running, want, id) <==> want.contains_key(id) && (!running.contains_key(id)
            || running[id] != credentials_hash(want[id])),
        is_current(running, want, id) ==> !is_stopped(running, want, id) && !is_started(
            running,
            want,
            id,
        ),
{
}

/// Reconciling with a configuration for the second time changes nothing.
pub proof fn law_reconcile_is_idempotent(want: Map<Seq<char>, ClientView>, id: Seq<char>)
    ensures
        !is_stopped(settled(want), want, id),
        !is_started(settled(want), want, id),
{
}

/// A bot whose credentials stay the same is left alone, whatever else changes.
pub proof fn law_unchanged_bot_is_left_alone(
    before: Map<Seq<char>, ClientView>,
    want: Map<Seq<char>, ClientView>,
    id: Seq<char>,
)
    requires
        before.contains_key(id),
        want.contains_key(id),
        want[id].webhook_secret == before[id].webhook_secret,
        want[id].project_secret == before[id].project_secret,
        want[id].bot_token == before[id].bot_token,
    ensures
        !is_stopped(settled(before), want, id),
        !is_started(settled(before), want, id),
{
}

/// A bot is left alone only where all three of its credentials are those that it was
/// started with, or where the hasher gives one hash for different writes.
pub proof fn law_changed_bot_is_restarted(
    before: Map<Seq<char>, ClientView>,
    want: Map<Seq<char>, ClientView>,
    id: Seq<char>,
)
    requires
        before.contains_key(id),
        want.contains_key(id),
    ensures
        ({
            let (a, b) = (before[id], want[id]);
            let written = |c: ClientView|
                hashing::str_writes(c.webhook_secret) + hashing::str_writes(c.project_secret)
                    + hashing::str_writes(c.bot_token);
            let same = a.webhook_secret == b.webhook_secret && a.project_secret
                == b.project_secret && a.bot_token == b.bot_token;
            let collision = written(a) != written(b) && DefaultHasher::spec_finish(written(a))
                == DefaultHasher::spec_finish(written(b));
            writes_tell_texts() && !same && !collision ==> is_stopped(settled(before), want, id)
                && is_started(settled(before), want, id)
        }),
{
    law_credentials_are_hashed_in_full(before[id], want[id]);
}

/// What a configuration asks for: for each project that occurs in it, the last of the
/// entries with that project, as it is.
pub proof fn law_last_entry_is_asked_for(config: Config, id: Seq<char>)
    ensures
        desired(config).contains_key(id) <==> exists|i: int|
            0 <= i < config.bots@.len() && (#[trigger] config.bots@[i]).project_id@ == id,
        forall|i: int|
            0 <= i < config.bots@.len() && (#[trigger] config.bots@[i]).project_id@ == id && (
            forall|j: int| i < j < config.bots@.len() ==> (#[trigger] config.bots@[j]).project_id@
                != id) ==> desired(config)[id] == config.bots@[i]@,
{
    lemma_last_entry(config.bots@, id);
}

proof fn lemma_last_entry(bots: Seq<Client>, id: Seq<char>)
    ensures
        table(client_entries(bots)).contains_key(id) <==> exists|i: int|
            0 <= i < bots.len() && (#[trigger] bots[i]).project_id@ == id,
        forall|i: int|
            0 <= i < bots.len() && (#[trigger] bots[i]).project_id@ == id && (forall|j: int|
                i < j < bots.len() ==> (#[trigger] bots[j]).project_id@ != id) ==> table(
                client_entries(bots),
            )[id] == bots[i]@,
    decreases bots.len(),
{
    if bots.len() > 0 {
        let front = bots.drop_last();
        let last = bots.last();
        lemma_last_entry(front, id);
        assert(client_entries(bots).drop_last() =~= client_entries(front));
        assert(client_entries(bots).last() == (last.project_id@, last@));
        let mine = table(client_entries(bots));
        assert(mine == table(client_entries(front)).insert(last.project_id@, last@));
        assert(bots[bots.len() - 1] == last);
        if last.project_id@ != id {
            if exists|i: int| 0 <= i < bots.len() && (#[trigger] bots[i]).project_id@ == id {
                let i = choose|i: int|
                    0 <= i < bots.len() && (#[trigger] bots[i]).project_id@ == id;
                assert(front[i] == bots[i]);
            }
            if exists|i: int| 0 <= i < front.len() && (#[trigger] front[i]).project_id@ == id {
                let i = choose|i: int|
                    0 <= i < front.len() && (#[trigger] front[i]).project_id@ == id;
                assert(bots[i] == front[i]);
            }
        }
        assert forall|i: int|
            0 <= i < bots.len() && (#[trigger] bots[i]).project_id@ == id && (forall|j: int|
                i < j < bots.len() ==> (#[trigger] bots[j]).project_id@ != id) implies mine[id]
            == bots[i]@ by {
            if i < front.len() {
                assert(front[i] == bots[i]);
                assert(bots[bots.len() - 1].project_id@ != id);
                assert forall|j: int| i < j < front.len() implies (#[trigger] front[j]).project_id@
                    != id by {
                    assert(bots[j] == front[j]);
                }
            }
        }
    }
}

/// What runs after a reconciliation is just what is asked for, with the hashes of the
/// credentials that are asked for.
pub proof fn law_what_is_asked_for_runs(want: Map<Seq<char>, ClientView>, id: Seq<char>)
    ensures
        settled(want).contains_key(id) <==> want.contains_key(id),
        want.contains_key(id) ==> settled(want)[id] == credentials_hash(want[id]),
{
}

/// A running bot.
struct Bot {
    id: String,
    config_hash: u64,
}

/// Knows which bots run. `H` is the HTTP client that they share; it is carried along
/// only.
pub struct Supervisor<H> {
    http: H,
    bots: Vec<Bot>,
}

/// The contents of a list of projects.
pub open spec fn ids(list: Seq<String>) -> Seq<Seq<char>> {
    list.map_values(|id: String| id@)
}

/// The contents of a list of clients.
pub open spec fn clients(list: Seq<Client>) -> Seq<ClientView> {
    list.map_values(|c: Client| c@)
}

/// What a reconciliation comes to.
pub struct Plan {
    /// The projects whose bots are to be stopped. This comes first.
    pub stop: Vec<String>,
    /// The clients whose bots are to be started.
    pub start: Vec<Client>,
    /// How many entries of the configuration were left out because another one for the
    /// same project follows.
    pub duplicates: usize,
    /// What is recorded.
    pub sample: Sample,
}

impl Plan {
    /// Whether this plan takes the bots from `running` to what is asked for: which bots
    /// it stops and starts, each of them once.
    pub open spec fn leads(
        self,
        running: Map<Seq<char>, u64>,
        want: Map<Seq<char>, ClientView>,
    ) -> bool {
        &&& ids(self.stop@).no_duplicates()
        &&& forall|id: Seq<char>| #[trigger]
            ids(self.stop@).contains(id) <==> is_stopped(running, want, id)
        &&& clients(self.start@).no_duplicates()
        &&& forall|c: ClientView| #[trigger]
            clients(self.start@).contains(c) <==> is_started(running, want, c.project_id)
                && want[c.project_id] == c
    }
}

/// A plan stops a bot just where it runs and is not asked for with the hash that it runs
/// with. It starts a client just where it is asked for, as it is, and does not run with its
/// hash. It names none twice.
pub proof fn law_plan_in_full(
    plan: Plan,
    running: Map<Seq<char>, u64>,
    want: Map<Seq<char>, ClientView>,
    id: Seq<char>,
    client: ClientView,
)
    requires
        plan.leads(running, want),
    ensures
        (exists|i: int| 0 <= i < plan.stop@.len() && (#[trigger] plan.stop@[i])@ == id) <==> {
            &&& running.contains_key(id)
            &&& want.contains_key(id) ==> running[id] != credentials_hash(want[id])
        },
        (exists|i: int| 0 <= i < plan.start@.len() && (#[trigger] plan.start@[i])@ == client) <==> {
            &&& want.contains_key(client.project_id)
            &&& want[client.project_id] == client
            &&& running.contains_key(client.project_id) ==> running[client.project_id]
                != credentials_hash(client)
        },
        forall|i: int, j: int|
            0 <= i < j < plan.stop@.len() ==> (#[trigger] plan.stop@[i])@ != (
            #[trigger] plan.stop@[j])@,
        forall|i: int, j: int|
            0 <= i < j < plan.start@.len() ==> (#[trigger] plan.start@[i])@ != (
            #[trigger] plan.start@[j])@,
{
    let stop = ids(plan.stop@);
    let start = clients(plan.start@);
    assert(stop.contains(id) == is_stopped(running, want, id));
    assert(start.contains(client) == (is_started(running, want, client.project_id)
        && want[client.project_id] == client));
    if stop.contains(id) {
        let i = choose|i: int| 0 <= i < stop.len() && stop[i] == id;
        assert(plan.stop@[i]@ == id);
    }
    if exists|i: int| 0 <= i < plan.stop@.len() && (#[trigger] plan.stop@[i])@ == id {
        let i = choose|i: int| 0 <= i < plan.stop@.len() && (#[trigger] plan.stop@[i])@ == id;
        assert(stop[i] == id);
    }
    if start.contains(client) {
        let i = choose|i: int| 0 <= i < start.len() && start[i] == client;
        assert(plan.start@[i]@ == client);
    }
    if exists|i: int| 0 <= i < plan.start@.len() && (#[trigger] plan.start@[i])@ == client {
        let i = choose|i: int|
            0 <= i < plan.start@.len() && (#[trigger] plan.start@[i])@ == client;
        assert(start[i] == client);
    }
    assert forall|i: int, j: int| 0 <= i < j < plan.stop@.len() implies (
    #[trigger] plan.stop@[i])@ != (#[trigger] plan.stop@[j])@ by {
        assert(stop[i] != stop[j]);
    }
    assert forall|i: int, j: int| 0 <= i < j < plan.start@.len() implies (
    #[trigger] plan.start@[i])@ != (#[trigger] plan.start@[j])@ by {
        assert(start[i] != start[j]);
    }
}

spec fn bot_entries(bots: Seq<Bot>) -> Seq<(Seq<char>, u64)> {
    bots.map_values(|b: Bot| (b.id@, b.config_hash))
}

/// Where the client of the project `id` is in a list.
fn find_client(clients: &Vec<Client>, id: &str) -> (r: Option<usize>)
    ensures
        match r {
            Some(i) => i < clients@.len() && clients@[i as int].project_id@ == id@,
            None => forall|i: int|
                0 <= i < clients@.len() ==> (#[trigger] clients@[i]).project_id@ != id@,
        },
{
    let mut i: usize = 0;
    while i < clients.len()
        invariant
            i <= clients@.len(),
            forall|k: int| 0 <= k < i ==> (#[trigger] clients@[k]).project_id@ != id@,
        decreases clients@.len() - i,
    {
        if same(clients[i].project_id.as_str(), id) {
            return Some(i);
        }
        i = i + 1;
    }
    None
}

/// The clients that a configuration asks for, one per project.
fn collapse(config: Config) -> (r: Vec<Client>)
    ensures
        distinct(client_entries(r@)),
        table(client_entries(r@)) == desired(config),
{
    let ghost all = client_entries(config.bots@);
    let mut rest = config.bots;
    let mut kept: Vec<Client> = Vec::new();
    while rest.len() > 0
        invariant
            all == client_entries(config.bots@),
            distinct(client_entries(kept@)),
            forall|i: int|
                0 <= i < kept@.len() ==> {
                    let c = (#[trigger] kept@[i])@;
                    table(all).contains_key(c.project_id) && table(all)[c.project_id] == c
                },
            forall|id: Seq<char>|
                (forall|i: int| 0 <= i < kept@.len() ==> (#[trigger] kept@[i]).project_id@ != id)
                    ==> {
                    &&& #[trigger] table(all).contains_key(id) == table(
                        client_entries(rest@),
                    ).contains_key(id)
                    &&& table(all).contains_key(id) ==> table(all)[id] == table(
                        client_entries(rest@),
                    )[id]
                },
        decreases rest@.len(),
    {
        let ghost before = rest@;
        let ghost kept_before = kept@;
        match rest.pop() {
            Some(client) => {
                let ghost view = client@;
                proof {
                    assert(client_entries(before).drop_last() =~= client_entries(rest@));
                    assert(client_entries(before).last() == (view.project_id, view));
                }
                match find_client(&kept, client.project_id.as_str()) {
                    Some(_) => {},
                    None => {
                        kept.push(client);
                        proof {
                            assert forall|i: int, j: int|
                                0 <= i < j < client_entries(kept@).len() implies (
                            #[trigger] client_entries(kept@)[i]).0 != (
                            #[trigger] client_entries(kept@)[j]).0 by {
                                assert(kept@[i] == kept_before[i]);
                                if j < kept_before.len() {
                                    assert(client_entries(kept_before)[i].0 != client_entries(
                                        kept_before,
                                    )[j].0);
                                }
                            }
                            assert(table(all).contains_key(view.project_id));
                        }
                    },
                }
                proof {
                    assert forall|id: Seq<char>|
                        (forall|i: int|
                            0 <= i < kept@.len() ==> (#[trigger] kept@[i]).project_id@
                                != id) implies {
                        &&& #[trigger] table(all).contains_key(id) == table(
                            client_entries(rest@),
                        ).contains_key(id)
                        &&& table(all).contains_key(id) ==> table(all)[id] == table(
                            client_entries(rest@),
                        )[id]
                    } by {
                        assert forall|i: int| 0 <= i < kept_before.len() implies (
                        #[trigger] kept_before[i]).project_id@ != id by {
                            assert(kept@[i] == kept_before[i]);
                        }
                        assert(exists|i: int|
                            0 <= i < kept@.len() && (#[trigger] kept@[i]).project_id@
                                == view.project_id) by {
                            if kept@.len() > kept_before.len() {
                                assert(kept@[kept@.len() - 1].project_id@ == view.project_id);
                            }
                        }
                        assert(view.project_id != id);
                    }
                }
            },
            None => {},
        }
    }
    proof {
        lemma_table_keys(client_entries(kept@));
        lemma_table_values(client_entries(kept@));
        let mine = table(client_entries(kept@));
        assert forall|id: Seq<char>| true implies #[trigger] mine.contains_key(id) == table(
            all,
        ).contains_key(id) && (mine.contains_key(id) ==> mine[id] == table(all)[id]) by {
            if exists|i: int| 0 <= i < kept@.len() && (#[trigger] kept@[i]).project_id@ == id {
                let i = choose|i: int|
                    0 <= i < kept@.len() && (#[trigger] kept@[i]).project_id@ == id;
                assert(client_entries(kept@)[i] == (id, kept@[i]@));
            } else {
                assert(rest@.len() == 0);
                if mine.contains_key(id) {
                    let i = choose|i: int|
                        0 <= i < client_entries(kept@).len() && (#[trigger] client_entries(
                            kept@,
                        )[i]).0 == id;
                    assert(kept@[i].project_id@ == id);
                }
            }
        }
        assert(mine =~= table(all));
    }
    kept
}

/// The hash that the bot of the project `id` runs with, where it runs.
fn find_bot(bots: &Vec<Bot>, id: &str) -> (r: Option<u64>)
    requires
        distinct(bot_entries(bots@)),
    ensures
        match r {
            Some(hash) => table(bot_entries(bots@)).contains_key(id@) && table(
                bot_entries(bots@),
            )[id@] == hash,
            None => !table(bot_entries(bots@)).contains_key(id@),
        },
{
    proof {
        lemma_table_keys(bot_entries(bots@));
        lemma_table_values(bot_entries(bots@));
    }
    let mut i: usize = 0;
    while i < bots.len()
        invariant
            i <= bots@.len(),
            forall|k: int| 0 <= k < i ==> (#[trigger] bot_entries(bots@)[k]).0 != id@,
            forall|k: int|
                0 <= k < bots@.len() ==> {
                    let entry = #[trigger] bot_entries(bots@)[k];
                    table(bot_entries(bots@)).contains_key(entry.0) && table(
                        bot_entries(bots@),
                    )[entry.0] == entry.1
                },
        decreases bots@.len() - i,
    {
        assert(bot_entries(bots@)[i as int] == (bots@[i as int].id@, bots@[i as int].config_hash));
        if same(bots[i].id.as_str(), id) {
            return Some(bots[i].config_hash);
        }
        i = i + 1;
    }
    None
}

proof fn lemma_filter<T>(list: Seq<T>, p: spec_fn(T) -> bool)
    requires
        list.no_duplicates(),
    ensures
        list.filter(p).no_duplicates(),
        forall|x: T| #[trigger] list.filter(p).contains(x) <==> list.contains(x) && p(x),
    decreases list.len(),
{
    reveal(Seq::filter);
    if list.len() > 0 {
        let front = list.drop_last();
        lemma_filter(front, p);
        assert(list =~= front.push(list.last()));
        assert(!front.contains(list.last()));
        assert(!front.filter(p).contains(list.last()));
        assert(list.filter(p) == if p(list.last()) {
            front.filter(p).push(list.last())
        } else {
            front.filter(p)
        });
        assert forall|x: T| #[trigger] list.filter(p).contains(x) <==> list.contains(x) && p(x) by {
            if p(list.last()) {
                lemma_push_contains(front.filter(p), list.last(), x);
            }
            lemma_push_contains(front, list.last(), x);
        }
    }
}

proof fn lemma_push_contains<T>(list: Seq<T>, last: T, x: T)
    ensures
        list.push(last).contains(x) <==> list.contains(x) || x == last,
{
    assert(list.push(last)[list.len() as int] == last);
    if list.contains(x) {
        let i = choose|i: int| 0 <= i < list.len() && list[i] == x;
        assert(list.push(last)[i] == x);
    }
}

spec fn bot_ids(bots: Seq<Bot>) -> Seq<Seq<char>> {
    bots.map_values(|b: Bot| b.id@)
}

/// The running bots that are to be stopped.
fn stops(bots: &Vec<Bot>, kept: &Vec<Client>) -> (r: Vec<String>)
    requires
        distinct(bot_entries(bots@)),
        distinct(client_entries(kept@)),
    ensures
        ids(r@).no_duplicates(),
        forall|id: Seq<char>| #[trigger]
            ids(r@).contains(id) <==> is_stopped(
                table(bot_entries(bots@)),
                table(client_entries(kept@)),
                id,
            ),
{
    let ghost running = table(bot_entries(bots@));
    let ghost want = table(client_entries(kept@));
    let ghost stopped = |id: Seq<char>| is_stopped(running, want, id);
    proof {
        lemma_table_keys(bot_entries(bots@));
        lemma_table_values(bot_entries(bots@));
        lemma_table_keys(client_entries(kept@));
        lemma_table_values(client_entries(kept@));
        reveal(Seq::filter);
    }
    let mut r: Vec<String> = Vec::new();
    let mut i: usize = 0;
    while i < bots.len()
        invariant
            i <= bots@.len(),
            stopped == (|id: Seq<char>| is_stopped(running, want, id)),
            forall|k: int|
                0 <= k < bots@.len() ==> {
                    let entry = #[trigger] bot_entries(bots@)[k];
                    running.contains_key(entry.0) && running[entry.0] == entry.1
                },
            forall|k: int|
                0 <= k < kept@.len() ==> {
                    let entry = #[trigger] client_entries(kept@)[k];
                    want.contains_key(entry.0) && want[entry.0] == entry.1
                },
            forall|id: Seq<char>| #[trigger]
                want.contains_key(id) ==> exists|k: int|
                    0 <= k < kept@.len() && (#[trigger] client_entries(kept@)[k]).0 == id,
            ids(r@) == bot_ids(bots@.take(i as int)).filter(stopped),
        decreases bots@.len() - i,
    {
        let ghost before = r@;
        let bot = &bots[i];
        let ghost id = bot.id@;
        let current = match find_client(kept, bot.id.as_str()) {
            Some(k) => {
                assert(client_entries(kept@)[k as int] == (id, kept@[k as int]@));
                config_hash(&kept[k]) == bot.config_hash
            },
            None => {
                proof {
                    if want.contains_key(id) {
                        let k = choose|k: int|
                            0 <= k < kept@.len() && (#[trigger] client_entries(kept@)[k]).0 == id;
                        assert(kept@[k].project_id@ == id);
                    }
                }
                false
            },
        };
        assert(bot_entries(bots@)[i as int] == (id, bot.config_hash));
        if !current {
            r.push(bot.id.clone());
            assert(ids(r@) =~= ids(before).push(id));
        }
        proof {
            reveal(Seq::filter);
            let seen = bot_ids(bots@.take(i + 1));
            assert(seen.drop_last() =~= bot_ids(bots@.take(i as int)));
            assert(seen.last() == id);
        }
        i = i + 1;
    }
    proof {
        let all = bot_ids(bots@);
        assert(bots@.take(i as int) =~= bots@);
        assert(all.no_duplicates()) by {
            assert forall|a: int, b: int| 0 <= a < b < all.len() implies all[a] != all[b] by {
                assert(bot_entries(bots@)[a].0 != bot_entries(bots@)[b].0);
            }
        }
        lemma_filter(all, stopped);
        assert forall|id: Seq<char>| is_stopped(running, want, id) implies #[trigger] all.contains(
            id,
        ) by {
            let k = choose|k: int|
                0 <= k < bot_entries(bots@).len() && (#[trigger] bot_entries(bots@)[k]).0 == id;
            assert(all[k] == id);
        }
        assert forall|id: Seq<char>| #[trigger] ids(r@).contains(id) <==> is_stopped(
            running,
            want,
            id,
        ) by {
            assert(all.contains(id) || !all.contains(id));
        }
    }
    r
}

/// The running bots once they are `kept`.
fn register(kept: &Vec<Client>) -> (r: Vec<Bot>)
    requires
        distinct(client_entries(kept@)),
    ensures
        r@.len() == kept@.len(),
        distinct(bot_entries(r@)),
        table(bot_entries(r@)) == settled(table(client_entries(kept@))),
{
    let mut r: Vec<Bot> = Vec::new();
    let mut i: usize = 0;
    while i < kept.len()
        invariant
            i <= kept@.len(),
            distinct(client_entries(kept@)),
            r@.len() == i,
            forall|k: int|
                0 <= k < i ==> (#[trigger] r@[k]).id@ == kept@[k].project_id@
                    && r@[k].config_hash == credentials_hash(kept@[k]@),
        decreases kept@.len() - i,
    {
        r.push(
            Bot { id: kept[i].project_id.clone(), config_hash: config_hash(&kept[i]) },
        );
        i = i + 1;
    }
    proof {
        lemma_settled(r@, kept@);
    }
    r
}

proof fn lemma_settled(bots: Seq<Bot>, kept: Seq<Client>)
    requires
        distinct(client_entries(kept)),
        bots.len() == kept.len(),
        forall|k: int|
            0 <= k < bots.len() ==> (#[trigger] bots[k]).id@ == kept[k].project_id@
                && bots[k].config_hash == credentials_hash(kept[k]@),
    ensures
        distinct(bot_entries(bots)),
        table(bot_entries(bots)) == settled(table(client_entries(kept))),
    decreases bots.len(),
{
    assert forall|i: int, j: int| 0 <= i < j < bot_entries(bots).len() implies (
    #[trigger] bot_entries(bots)[i]).0 != (#[trigger] bot_entries(bots)[j]).0 by {
        assert(client_entries(kept)[i].0 != client_entries(kept)[j].0);
    }
    if bots.len() > 0 {
        let front = bots.drop_last();
        let kept_front = kept.drop_last();
        assert(client_entries(kept).drop_last() =~= client_entries(kept_front));
        assert(bot_entries(bots).drop_last() =~= bot_entries(front));
        assert(distinct(client_entries(kept_front))) by {
            assert forall|i: int, j: int|
                0 <= i < j < client_entries(kept_front).len() implies (#[trigger] client_entries(
                kept_front,
            )[i]).0 != (#[trigger] client_entries(kept_front)[j]).0 by {
                assert(client_entries(kept)[i].0 != client_entries(kept)[j].0);
            }
        }
        lemma_settled(front, kept_front);
        assert(bots.last() == bots[bots.len() - 1]);
    }
    assert(table(bot_entries(bots)) =~= settled(table(client_entries(kept))));
}

/// The clients whose bots are to be started, of those in `kept`.
fn starts(bots: &Vec<Bot>, kept: Vec<Client>) -> (r: Vec<Client>)
    requires
        distinct(bot_entries(bots@)),
        distinct(client_entries(kept@)),
    ensures
        clients(r@).no_duplicates(),
        forall|c: ClientView| #[trigger]
            clients(r@).contains(c) <==> is_started(
                table(bot_entries(bots@)),
                table(client_entries(kept@)),
                c.project_id,
            ) && table(client_entries(kept@))[c.project_id] == c,
{
    let ghost running = table(bot_entries(bots@));
    let ghost want = table(client_entries(kept@));
    let ghost all = kept@;
    let ghost started = |c: ClientView| is_started(running, want, c.project_id);
    proof {
        lemma_table_keys(client_entries(all));
        lemma_table_values(client_entries(all));
        assert forall|k: int| 0 <= k < all.len() implies {
            let c = (#[trigger] all[k])@;
            want.contains_key(c.project_id) && want[c.project_id] == c
        } by {
            assert(client_entries(all)[k] == (all[k].project_id@, all[k]@));
        }
        reveal(Seq::filter);
        assert(clients(all.skip(all.len() as int)).reverse() =~= Seq::empty());
    }
    let mut rest = kept;
    let mut r: Vec<Client> = Vec::new();
    while rest.len() > 0
        invariant
            distinct(bot_entries(bots@)),
            running == table(bot_entries(bots@)),
            started == (|c: ClientView| is_started(running, want, c.project_id)),
            rest@.len() <= all.len(),
            rest@ == all.take(rest@.len() as int),
            forall|k: int|
                0 <= k < all.len() ==> {
                    let c = (#[trigger] all[k])@;
                    want.contains_key(c.project_id) && want[c.project_id] == c
                },
            clients(r@) == clients(all.skip(rest@.len() as int)).reverse().filter(started),
        decreases rest@.len(),
    {
        let ghost before = r@;
        let ghost at = rest@.len() - 1;
        match rest.pop() {
            Some(client) => {
                let ghost view = client@;
                assert(client == all[at]);
                assert(rest@ =~= all.take(at));
                let current = match find_bot(bots, client.project_id.as_str()) {
                    Some(hash) => hash == config_hash(&client),
                    None => false,
                };
                if !current {
                    r.push(client);
                    assert(clients(r@) =~= clients(before).push(view));
                }
                proof {
                    reveal(Seq::filter);
                    let seen = clients(all.skip(at)).reverse();
                    assert(seen.drop_last() =~= clients(all.skip(at + 1)).reverse());
                    assert(seen.last() == view);
                }
            },
            None => {},
        }
    }
    proof {
        let list = clients(all).reverse();
        assert(all.skip(0) =~= all);
        assert(list.no_duplicates()) by {
            assert forall|a: int, b: int| 0 <= a < b < list.len() implies list[a] != list[b] by {
                let n = all.len() - 1;
                assert(client_entries(all)[n - b].0 != client_entries(all)[n - a].0);
            }
        }
        lemma_filter(list, started);
        assert forall|c: ClientView| #[trigger] clients(r@).contains(c) <==> is_started(
            running,
            want,
            c.project_id,
        ) && want[c.project_id] == c by {
            if list.contains(c) {
                let k = choose|k: int| 0 <= k < list.len() && list[k] == c;
                assert(all[all.len() - 1 - k]@ == c);
            }
            if want.contains_key(c.project_id) && want[c.project_id] == c {
                let k = choose|k: int|
                    0 <= k < client_entries(all).len() && (#[trigger] client_entries(all)[k]).0
                        == c.project_id;
                assert(client_entries(all)[k].1 == all[k]@);
                assert(list[all.len() - 1 - k] == c);
            }
        }
    }
    r
}

impl<H> View for Supervisor<H> {
    type V = Map<Seq<char>, u64>;

    /// For each running bot, by project, the hash of the credentials that it was
    /// started with.
    closed spec fn view(&self) -> Map<Seq<char>, u64> {
        table(bot_entries(self.bots@))
    }
}

impl<H> Supervisor<H> {
    /// Whether no two bots run for one project.
    pub closed spec fn wf(self) -> bool {
        distinct(bot_entries(self.bots@))
    }

    /// The HTTP client that the bots share.
    pub closed spec fn client(self) -> H {
        self.http
    }

    /// A supervisor without bots, which shares `http` among those to come.
    pub fn new(http: H) -> (r: Self)
        ensures
            r.wf(),
            r@ == Map::<Seq<char>, u64>::empty(),
            r.client() == http,
    {
        Supervisor { http, bots: Vec::new() }
    }

    /// The HTTP client that the bots share.
    pub fn http(&self) -> (r: &H)
        ensures
            *r == self.client(),
    {
        &self.http
    }

    /// What to change so that the running bots are those that `config` asks for.
    pub fn reconcile(&mut self, config: Config) -> (r: Plan)
        requires
            old(self).wf(),
        ensures
            final(self).wf(),
            final(self)@ == settled(desired(config)),
            final(self).client() == old(self).client(),
            r.leads(old(self)@, desired(config)),
            r.duplicates == config.bots@.len() - desired(config).len(),
            r.sample@ == SampleView::Level(metrics::ACTIVE_BOTS@, desired(config).len() as int),
    {
        let entries: usize = config.bots.len();
        proof {
            lemma_table_keys(client_entries(config.bots@));
        }
        let kept = collapse(config);
        proof {
            lemma_table_values(client_entries(kept@));
        }
        let active: usize = kept.len();
        let stop = stops(&self.bots, &kept);
        let bots = register(&kept);
        let start = starts(&self.bots, kept);
        self.bots = bots;
        Plan { stop, start, duplicates: entries - active, sample: set_active_bots(active) }
    }

    /// Forgets all bots, which are to be stopped now: their projects, and what is
    /// recorded.
    pub fn shutdown(&mut self) -> (r: (Vec<String>, Sample))
        requires
            old(self).wf(),
        ensures
            final(self).wf(),
            final(self)@ == Map::<Seq<char>, u64>::empty(),
            final(self).client() == old(self).client(),
            ids(r.0@).no_duplicates(),
            forall|id: Seq<char>| #[trigger]
                ids(r.0@).contains(id) <==> old(self)@.contains_key(id),
            r.1@ == SampleView::Level(metrics::ACTIVE_BOTS@, 0),
    {
        let none: Vec<Client> = Vec::new();
        let stop = stops(&self.bots, &none);
        self.bots = Vec::new();
        (stop, set_active_bots(0))
    }
}

/// The client that looks up the slug of the project of `client`, given the value of
/// [`spectrum::SPECTRUM_CLOUD_URL_ENV`].
pub fn slug_client<H>(http: H, cloud_url: Option<&str>, client: &Client) -> (r: SpectrumClient<H>)
    ensures
        r.http == http,
        r.base_url@ == text::setting_value(
            text::contents(cloud_url),
            spectrum::DEFAULT_SPECTRUM_CLOUD_URL@,
        ),
        r.project_id@ == client.project_id@,
        r.project_secret@ == client.project_secret@,
{
    let base_url = spectrum_cloud_url(cloud_url);
    SpectrumClient::with_client(
        http,
        base_url.as_str(),
        client.project_id.as_str(),
        client.project_secret.as_str(),
    )
}

/// What to do after an attempt to look up a slug.
pub enum SlugStep {
    /// Go on with the slug.
    Resolved(String),
    /// Give up. The request itself is the problem: the credentials, the project, or
    /// what the project lacks.
    Rejected(SpectrumError),
    /// Try again later. The problem may pass.
    Retry {
        /// How long to wait first.
        delay: Duration,
        /// What went wrong.
        error: SpectrumError,
    },
}

/// What to do after an attempt to look up a slug came to `outcome`. A failure that may
/// pass is never given up on, since a bot is of no use without a slug.
pub fn resolve_slug(outcome: Result<String, SpectrumError>, backoff: &mut Backoff) -> (r: SlugStep)
    ensures
        match outcome {
            Ok(slug) => r == SlugStep::Resolved(slug) && final(backoff)@ == old(backoff)@,
            Err(e) => if e is Status || e is MissingSlug {
                r == SlugStep::Rejected(e) && final(backoff)@ == old(backoff)@
            } else {
                &&& r matches SlugStep::Retry { delay, error }
                &&& error == e
                &&& delay::duration_nanos(delay) == old(backoff)@
                &&& final(backoff)@ == backoff::next_wait(old(backoff)@)
            },
        },
{
    match outcome {
        Ok(slug) => SlugStep::Resolved(slug),
        Err(e) => match e {
            SpectrumError::Status { .. } | SpectrumError::MissingSlug => SlugStep::Rejected(e),
            SpectrumError::InvalidUrl(_) | SpectrumError::Transport(_) => {
                let delay = backoff.next_delay();
                SlugStep::Retry { delay, error: e }
            },
        },
    }
}

/// The client that forwards the events of the bot of `client`, once its slug is known,
/// given the value of [`webhook::SUPER_WEBHOOK_DOMAIN_ENV`].
pub fn forwarder<H>(http: H, slug: &str, client: &Client, domain: Option<&str>) -> (r: Result<
    WebhookClient<H>,
    WebhookError,
>)
    ensures
        WebhookClient::targets(
            r,
            http,
            webhook::webhook_url(
                text::tidy(slug@),
                text::tidy(PLATFORM@),
                text::tidy(
                    text::setting_value(
                        text::contents(domain),
                        webhook::DEFAULT_SUPER_WEBHOOK_DOMAIN@,
                    ),
                ),
            ),
            client.webhook_secret@,
        ),
{
    WebhookClient::for_slug_with_client(
        http,
        slug,
        PLATFORM,
        client.webhook_secret.as_str(),
        domain,
    )
}

} // verus!
