//! What holds of every runtime session, whatever its driver reports and whatever
//! the mailboxes answer.

use vstd::prelude::*;

use crate::outbox::Delivery;
use crate::runtime::{
    ActorInput, ActorView, ClientOutputTx, ExitPolicy, InputLeaseOwner, OutputView, PtyEvent,
    PtyEventKind, ReasonView, RequestView, RuntimeCommand,
};

verus! {

/// Tells whether the record `after` continues the record `before`.
pub open spec fn continues(before: Seq<Delivery>, after: Seq<Delivery>) -> bool {
    before.len() <= after.len() && after.take(before.len() as int) == before
}

proof fn lemma_continues_concat(before: Seq<Delivery>, more: Seq<Delivery>)
    ensures
        continues(before, before + more),
{
    assert((before + more).take(before.len() as int) =~= before);
}

proof fn lemma_continues_push(before: Seq<Delivery>, one: Delivery)
    ensures
        continues(before, before.push(one)),
{
    assert(before.push(one).take(before.len() as int) =~= before);
}

proof fn lemma_continues_on(a: Seq<Delivery>, b: Seq<Delivery>, c: Seq<Delivery>)
    requires
        continues(a, b),
        continues(b, c),
    ensures
        continues(a, c),
{
    assert(c.take(a.len() as int) =~= b.take(a.len() as int)) by {
        assert forall|i: int| 0 <= i < a.len() implies c[i] == b[i] by {
            assert(c.take(b.len() as int)[i] == c[i]);
        }
    }
}

proof fn lemma_broadcast(
    state: ActorView,
    message: OutputView,
    with_terminal: bool,
    results: Seq<bool>,
)
    ensures
        ({
            let after = state.broadcast(message, with_terminal, results);
            &&& continues(state.log, after.log)
            &&& after.owner == state.owner
            &&& after.epoch == state.epoch
        }),
{
    lemma_continues_concat(
        state.log,
        crate::runtime::to_each(state.recipients(with_terminal), message, results),
    );
}

proof fn lemma_claim(state: ActorView, owner: InputLeaseOwner, results: Seq<bool>)
    ensures
        ({
            let after = state.claim(owner, results);
            &&& continues(state.log, after.log)
            &&& after.owner == owner
            &&& after.epoch == next_epoch(state, owner)
        }),
{
    if state.owner != owner {
        let claimed = ActorView { owner, epoch: next_epoch(state, owner), ..state };
        lemma_broadcast(claimed, claimed.lease_message(), true, results);
    } else {
        lemma_continues_concat(state.log, seq![]);
        assert(state.log + Seq::<Delivery>::empty() =~= state.log);
    }
}

proof fn lemma_child_exit(state: ActorView, results: Seq<bool>)
    ensures
        ({
            let after = state.child_exit(results).0;
            &&& continues(state.log, after.log)
            &&& after.owner == state.owner
            &&& after.epoch == state.epoch
        }),
{
    lemma_same(state);
    let exited = ActorView { child_exited: true, ..state };
    lemma_broadcast(
        exited,
        OutputView::Control(
            crate::protocol::ServerMessageView::ProcessExited {
                message: "The terminal process exited."@,
            },
        ),
        true,
        results,
    );
}

proof fn lemma_same(state: ActorView)
    ensures
        continues(state.log, state.log),
{
    assert(state.log.take(state.log.len() as int) =~= state.log);
}

proof fn lemma_attach_client(
    state: ActorView,
    client: u64,
    output: ClientOutputTx,
    results: Seq<bool>,
)
    ensures
        ({
            let after = state.attach_client(client, output, results);
            &&& continues(state.log, after.log)
            &&& after.owner == state.owner
            &&& after.epoch == state.epoch
        }),
{
    let base = state.hand_over(client, results);
    lemma_same(state);
    if let Some(previous) = state.controller {
        lemma_continues_push(
            state.log,
            Delivery {
                mailbox: crate::runtime::mailbox_of(state.clients, previous)->0,
                message: OutputView::Closed(ReasonView::ControllerReplaced),
                delivered: results[0],
            },
        );
    }
    let rest = results.skip(base.log.len() - state.log.len());
    let more = crate::runtime::in_turn(output, base.attach_messages(), rest);
    lemma_continues_concat(base.log, more);
    lemma_continues_on(state.log, base.log, base.log + more);
}

proof fn lemma_attach_terminal(state: ActorView, output: ClientOutputTx, results: Seq<bool>)
    ensures
        ({
            let after = state.attach_terminal(output, results);
            &&& continues(state.log, after.log)
            &&& after.owner == InputLeaseOwner::Terminal
            &&& after.epoch == next_epoch(state, InputLeaseOwner::Terminal)
        }),
{
    let base = ActorView { terminal: Some(output), ..state };
    lemma_broadcast(base, base.lease_message(), true, results);
    lemma_claim(base, InputLeaseOwner::Terminal, results);
    let told = if base.owner == InputLeaseOwner::Terminal {
        base.broadcast(base.lease_message(), true, results)
    } else {
        base.claim(InputLeaseOwner::Terminal, results)
    };
    let rest = results.skip(told.log.len() - state.log.len());
    let messages = told.replay.map_values(|bytes: Seq<u8>| OutputView::Bytes(bytes));
    let more = crate::runtime::in_turn(output, messages, rest);
    lemma_continues_concat(told.log, more);
    lemma_continues_on(state.log, told.log, told.log + more);
}

proof fn lemma_output(state: ActorView, bytes: Seq<u8>, results: Seq<bool>)
    ensures
        ({
            let after = state.output(bytes, results);
            &&& continues(state.log, after.log)
            &&& after.owner == state.owner
            &&& after.epoch == state.epoch
        }),
{
    let kept = ActorView {
        replay: crate::runtime::retained(state.replay.push(bytes)),
        ..state
    };
    lemma_broadcast(kept, OutputView::Bytes(bytes), true, results);
    let sent = kept.broadcast(OutputView::Bytes(bytes), true, results);
    let after = state.output(bytes, results);
    let more = after.log.skip(sent.log.len() as int);
    assert(after.log =~= sent.log + more);
    lemma_continues_concat(sent.log, more);
    lemma_continues_on(state.log, sent.log, after.log);
}

/// The number of the input lease once `owner` has it.
pub open spec fn next_epoch(state: ActorView, owner: InputLeaseOwner) -> u64 {
    if state.owner == owner || state.epoch == u64::MAX {
        state.epoch
    } else {
        (state.epoch + 1) as u64
    }
}

/// What was sent stays sent, and the number of the input lease grows by one
/// whenever the lease passes to another owner, and only then, up to the largest.
pub proof fn law_epoch_counts_owners(state: ActorView, input: ActorInput, results: Seq<bool>)
    ensures
        ({
            let after = state.step(input, results).0;
            &&& continues(state.log, after.log)
            &&& after.epoch == next_epoch(state, after.owner)
        }),
{
    lemma_same(state);
    match input {
        ActorInput::PtyPolled(Some(event)) => lemma_event(state, event, true, results),
        ActorInput::WaitedForEvent(event) => lemma_event(state, event, false, results),
        ActorInput::ChildPolled(_) => lemma_child_exit(state, results),
        ActorInput::Probed { .. } => lemma_child_exit(state, results),
        ActorInput::EventsClosed => lemma_child_exit(state, results),
        ActorInput::Command(command) => lemma_command(state, command, results),
        ActorInput::Resized(_) => lemma_broadcast(state, state.size_message(), false, results),
        ActorInput::Restarted { attach, result } => {
            let fresh = state.restart();
            match attach {
                crate::runtime::PendingAttach::Terminal { output } => lemma_attach_terminal(
                    fresh,
                    output,
                    results,
                ),
                crate::runtime::PendingAttach::Client { client_id, output } => lemma_attach_client(
                    fresh,
                    client_id@,
                    output,
                    results,
                ),
            }
            if let Err(error) = result {
                lemma_continues_push(
                    state.log,
                    Delivery {
                        mailbox: attach.mailbox(),
                        message: OutputView::Closed(ReasonView::RuntimeError(error.text())),
                        delivered: results[0],
                    },
                );
            }
        },
        _ => {},
    }
}

proof fn lemma_event(state: ActorView, event: PtyEvent, draining: bool, results: Seq<bool>)
    ensures
        ({
            let after = state.on_event(event, draining, results).0;
            &&& continues(state.log, after.log)
            &&& after.owner == state.owner
            &&& after.epoch == state.epoch
        }),
{
    lemma_same(state);
    lemma_child_exit(state, results);
    match event.kind {
        PtyEventKind::Output(bytes) => lemma_output(
            state,
            crate::octets::octets(bytes),
            results,
        ),
        _ => {},
    }
}

proof fn lemma_command(state: ActorView, command: RuntimeCommand, results: Seq<bool>)
    ensures
        ({
            let after = state.on_command(command, results).0;
            &&& continues(state.log, after.log)
            &&& after.epoch == next_epoch(state, after.owner)
        }),
{
    lemma_same(state);
    match command {
        RuntimeCommand::AttachTerminal { output } => lemma_attach_terminal(
            state,
            output,
            results,
        ),
        RuntimeCommand::AttachClient { client_id, output } => lemma_attach_client(
            state,
            client_id@,
            output,
            results,
        ),
        RuntimeCommand::AcquireControl { client_id } => lemma_claim(
            state,
            InputLeaseOwner::Browser(client_id),
            results,
        ),
        RuntimeCommand::TerminalInput { .. } => lemma_claim(
            state,
            InputLeaseOwner::Terminal,
            results,
        ),
        RuntimeCommand::Input { client_id, .. } => lemma_claim(
            state,
            InputLeaseOwner::Browser(client_id),
            results,
        ),
        RuntimeCommand::Resize { size } => {
            let sized = ActorView { size, ..state };
            lemma_broadcast(sized, sized.size_message(), false, results);
        },
        RuntimeCommand::BrowserResize { size, .. } => {
            let sized = ActorView { size, ..state };
            lemma_broadcast(sized, sized.size_message(), false, results);
        },
        _ => {},
    }
}

/// Input reaches the terminal process only from the attached terminal or from the
/// controlling browser client, only while the process runs, and the writer then
/// owns the input lease.
pub proof fn law_only_the_lease_owner_writes(
    state: ActorView,
    input: ActorInput,
    results: Seq<bool>,
)
    ensures
        ({
            let (after, request) = state.step(input, results);
            request matches RequestView::Write(written) ==> {
                &&& !state.child_exited
                &&& match input {
                    ActorInput::Command(RuntimeCommand::TerminalInput { bytes }) => {
                        &&& state.terminal is Some
                        &&& written == crate::octets::octets(bytes)
                        &&& after.owner == InputLeaseOwner::Terminal
                    },
                    ActorInput::Command(RuntimeCommand::Input { client_id, bytes }) => {
                        &&& state.controller == Some(client_id@)
                        &&& written == crate::octets::octets(bytes)
                        &&& after.owner == InputLeaseOwner::Browser(client_id)
                    },
                    _ => false,
                }
            }
        }),
{
    match input {
        ActorInput::Command(RuntimeCommand::TerminalInput { .. }) => lemma_claim(
            state,
            InputLeaseOwner::Terminal,
            results,
        ),
        ActorInput::Command(RuntimeCommand::Input { client_id, .. }) => lemma_claim(
            state,
            InputLeaseOwner::Browser(client_id),
            results,
        ),
        _ => {},
    }
}

/// The size of the terminal changes only by a resize command. While a terminal is
/// attached, no browser client changes it.
pub proof fn law_size_follows_the_terminal(
    state: ActorView,
    input: ActorInput,
    results: Seq<bool>,
)
    ensures
        state.step(input, results).0.size != state.size ==> match input {
            ActorInput::Command(RuntimeCommand::Resize { .. }) => true,
            ActorInput::Command(RuntimeCommand::BrowserResize { client_id, .. }) => state.terminal is None
                && state.controller == Some(client_id@),
            _ => false,
        },
{
}

/// What an earlier terminal process still reports changes nothing.
pub proof fn law_earlier_process_is_ignored(
    state: ActorView,
    event: PtyEvent,
    draining: bool,
    results: Seq<bool>,
)
    requires
        event.generation != state.generation,
    ensures
        state.on_event(event, draining, results).0 == state,
        state.on_event(event, draining, results).1 !is Stop,
{
}

/// A session that holds goes on when its terminal process exits, and tells it
/// once; one that ends stops with that reason.
pub proof fn law_exit_policy_decides(state: ActorView, results: Seq<bool>)
    requires
        !state.child_exited,
    ensures
        state.exit_policy == ExitPolicy::End ==> state.child_exit(results) == (
            state,
            Some(ReasonView::ChildExit),
        ),
        state.exit_policy != ExitPolicy::End ==> {
            let (after, reason) = state.child_exit(results);
            &&& reason is None
            &&& after.child_exited
            &&& after.log.len() == state.log.len() + state.recipients(true).len()
            &&& after.child_exit(results) == (after, None::<ReasonView>)
        },
{
}

/// A browser client is sent all retained output between two markers, and nothing
/// behind the second.
pub proof fn law_replay_is_marked(state: ActorView)
    ensures
        ({
            let messages = state.attach_messages();
            let start = messages.len() - state.replay.len() - 2;
            &&& 2 <= start <= 3
            &&& messages[start] == OutputView::Control(
                crate::protocol::ServerMessageView::ReplayStarted,
            )
            &&& forall|i: int|
                0 <= i < state.replay.len() ==> #[trigger] messages[start + 1 + i]
                    == OutputView::Bytes(state.replay[i])
            &&& messages.last() == OutputView::Control(
                crate::protocol::ServerMessageView::ReplayFinished,
            )
        }),
{
}

/// All that a browser client is sent when it attaches fits into its empty
/// mailbox.
pub proof fn law_attach_fits_the_mailbox(state: ActorView)
    requires
        state.valid(),
    ensures
        state.attach_messages().len() < crate::runtime::CLIENT_OUTPUT_CAPACITY,
{
}

/// A browser client that attaches takes control from the one before it, who is told
/// in its own mailbox and no longer attached. Other clients stay, each with the mailbox
/// it had, and the new one has the mailbox it came with.
pub proof fn law_newer_browser_takes_over(
    state: ActorView,
    client: u64,
    output: ClientOutputTx,
    results: Seq<bool>,
)
    requires
        state.valid(),
        state.attach_client(client, output, results).controller is Some,
    ensures
        ({
            let after = state.attach_client(client, output, results);
            &&& after.controller == Some(client)
            &&& crate::runtime::mailbox_of(after.clients, client) == Some(output)
            &&& state.controller matches Some(previous) ==> previous != client ==> {
                let told = after.log[state.log.len() as int];
                &&& !after.attached(previous)
                &&& after.log.len() > state.log.len()
                &&& Some(told.mailbox) == crate::runtime::mailbox_of(state.clients, previous)
                &&& told.message == OutputView::Closed(ReasonView::ControllerReplaced)
            }
            &&& forall|c: u64|
                #![trigger crate::runtime::mailbox_of(after.clients, c)]
                c != client && state.controller != Some(c) ==> crate::runtime::mailbox_of(
                    after.clients,
                    c,
                ) == crate::runtime::mailbox_of(state.clients, c)
        }),
{
    let after = state.attach_client(client, output, results);
    let base = state.hand_over(client, results);
    let left = crate::runtime::without(base.clients, client);
    assert(after.clients.drop_last() =~= left);
    crate::runtime::lemma_without(base.clients, client);
    if let Some(previous) = state.controller {
        crate::runtime::lemma_mailbox(state.clients, previous);
        crate::runtime::lemma_without(state.clients, previous);
        crate::runtime::lemma_ids_push(left, (client, output));
        crate::runtime::lemma_push_ids(crate::runtime::ids(left), client);
    }
    assert forall|c: u64|
        #![trigger crate::runtime::mailbox_of(after.clients, c)]
        c != client && state.controller != Some(c) implies crate::runtime::mailbox_of(
        after.clients,
        c,
    ) == crate::runtime::mailbox_of(state.clients, c) by {
        crate::runtime::lemma_mailbox_without(base.clients, client, c);
        if let Some(previous) = state.controller {
            crate::runtime::lemma_mailbox_without(state.clients, previous, c);
        }
    }
}

/// A client that left is not attached and has no control. The others keep their
/// mailboxes.
pub proof fn law_detached_client_is_gone(state: ActorView, client: u64)
    ensures
        !state.detach(client).attached(client),
        state.detach(client).controller != Some(client),
        forall|c: u64|
            #![trigger crate::runtime::mailbox_of(state.detach(client).clients, c)]
            c != client ==> crate::runtime::mailbox_of(state.detach(client).clients, c)
                == crate::runtime::mailbox_of(state.clients, c),
{
    crate::runtime::lemma_without(state.clients, client);
    assert forall|c: u64|
        #![trigger crate::runtime::mailbox_of(state.detach(client).clients, c)]
        c != client implies crate::runtime::mailbox_of(state.detach(client).clients, c)
        == crate::runtime::mailbox_of(state.clients, c) by {
        crate::runtime::lemma_mailbox_without(state.clients, client, c);
    }
}

/// Tells whether `mailbox` is that of the terminal or of a browser client that is
/// attached.
pub open spec fn holds(state: ActorView, mailbox: ClientOutputTx) -> bool {
    ||| state.terminal == Some(mailbox)
    ||| exists|client: u64| #[trigger] state.clients.contains((client, mailbox))
}

/// Tells whether `input` brings `mailbox` for someone who attaches.
pub open spec fn brings(input: ActorInput, mailbox: ClientOutputTx) -> bool {
    match input {
        ActorInput::Command(RuntimeCommand::AttachTerminal { output }) => mailbox == output,
        ActorInput::Command(RuntimeCommand::AttachClient { output, .. }) => mailbox == output,
        ActorInput::Restarted { attach, .. } => mailbox == attach.mailbox(),
        _ => false,
    }
}

/// What the terminal process writes is offered to everyone attached, to each once and in
/// its own mailbox, the terminal first, and to the clients in the order in which they
/// attached.
pub proof fn law_output_is_offered_to_everyone(
    state: ActorView,
    event: PtyEvent,
    bytes: bytes::Bytes,
    draining: bool,
    results: Seq<bool>,
)
    requires
        event.generation == state.generation,
        event.kind == PtyEventKind::Output(bytes),
    ensures
        ({
            let after = state.on_event(event, draining, results).0;
            let message = OutputView::Bytes(crate::octets::octets(bytes));
            let first: int = if state.terminal is Some {
                1
            } else {
                0
            };
            let from = state.log.len() as int;
            &&& after.log.len() >= from + first + state.clients.len()
            &&& state.terminal matches Some(mailbox) ==> after.log[from] == (Delivery {
                mailbox,
                message,
                delivered: results[0],
            })
            &&& forall|i: int|
                0 <= i < state.clients.len() ==> #[trigger] after.log[from + first + i] == (
                Delivery { mailbox: state.clients[i].1, message, delivered: results[first + i] })
        }),
{
    let after = state.on_event(event, draining, results).0;
    let contents = crate::octets::octets(bytes);
    let kept = ActorView {
        replay: crate::runtime::retained(state.replay.push(contents)),
        ..state
    };
    let sent = kept.broadcast(OutputView::Bytes(contents), true, results);
    let first: int = if state.terminal is Some {
        1
    } else {
        0
    };
    assert forall|i: int| 0 <= i < state.clients.len() implies #[trigger] after.log[state.log.len()
        + first + i] == (Delivery {
        mailbox: state.clients[i].1,
        message: OutputView::Bytes(contents),
        delivered: results[first + i],
    }) by {
        assert(after.log[state.log.len() + first + i] == sent.log[state.log.len() + first + i]);
        assert(kept.recipients(true)[first + i] == state.clients[i].1);
    }
}

/// Whatever is sent goes into the mailbox of someone attached, or of who just attaches.
pub proof fn law_only_attached_mailboxes_are_used(
    state: ActorView,
    input: ActorInput,
    results: Seq<bool>,
    i: int,
)
    requires
        state.log.len() <= i < state.step(input, results).0.log.len(),
    ensures
        ({
            let sent = state.step(input, results).0.log[i];
            holds(state, sent.mailbox) || brings(input, sent.mailbox)
        }),
{
    match input {
        ActorInput::PtyPolled(Some(event)) => lemma_event_mailboxes(state, event, true, results, i),
        ActorInput::WaitedForEvent(event) => lemma_event_mailboxes(
            state,
            event,
            false,
            results,
            i,
        ),
        ActorInput::ChildPolled(_) | ActorInput::Probed { .. } | ActorInput::EventsClosed =>
            lemma_child_exit_mailboxes(state, results, i),
        ActorInput::Command(command) => match command {
            RuntimeCommand::AttachTerminal { output } => lemma_attach_terminal_mailboxes(
                state,
                output,
                results,
                i,
            ),
            RuntimeCommand::AttachClient { client_id, output } => lemma_attach_client_mailboxes(
                state,
                client_id@,
                output,
                results,
                i,
            ),
            RuntimeCommand::AcquireControl { client_id } => lemma_claim_mailboxes(
                state,
                InputLeaseOwner::Browser(client_id),
                results,
                i,
            ),
            RuntimeCommand::TerminalInput { .. } => lemma_claim_mailboxes(
                state,
                InputLeaseOwner::Terminal,
                results,
                i,
            ),
            RuntimeCommand::Input { client_id, .. } => lemma_claim_mailboxes(
                state,
                InputLeaseOwner::Browser(client_id),
                results,
                i,
            ),
            RuntimeCommand::Resize { size } | RuntimeCommand::BrowserResize { size, .. } => {
                let sized = ActorView { size, ..state };
                lemma_broadcast_mailboxes(sized, sized.size_message(), false, results, i);
            },
            _ => {},
        },
        ActorInput::Resized(Ok(_)) => lemma_broadcast_mailboxes(
            state,
            state.size_message(),
            false,
            results,
            i,
        ),
        ActorInput::Restarted { attach, result } => {
            if result is Ok {
                let fresh = state.restart();
                match attach {
                    crate::runtime::PendingAttach::Terminal { output } =>
                        lemma_attach_terminal_mailboxes(fresh, output, results, i),
                    crate::runtime::PendingAttach::Client { client_id, output } =>
                        lemma_attach_client_mailboxes(fresh, client_id@, output, results, i),
                }
            }
        },
        _ => {},
    }
}

proof fn lemma_broadcast_mailboxes(
    state: ActorView,
    message: OutputView,
    with_terminal: bool,
    results: Seq<bool>,
    i: int,
)
    ensures
        state.log.len() <= i < state.broadcast(message, with_terminal, results).log.len() ==> ({
            let sent = state.broadcast(message, with_terminal, results).log[i];
            holds(state, sent.mailbox)
        }),
        state.broadcast(message, with_terminal, results).terminal matches Some(mailbox)
            ==> state.terminal == Some(mailbox),
{
    let recipients = state.recipients(with_terminal);
    let k = i - state.log.len();
    if 0 <= k < recipients.len() {
        let skipped = recipients.len() - state.clients.len();
        if k >= skipped {
            let client = state.clients[k - skipped];
            assert(recipients[k] == client.1);
            assert(state.clients.contains((client.0, client.1)));
        }
    }
}

proof fn lemma_claim_mailboxes(
    state: ActorView,
    owner: InputLeaseOwner,
    results: Seq<bool>,
    i: int,
)
    ensures
        state.log.len() <= i < state.claim(owner, results).log.len() ==> ({
            let sent = state.claim(owner, results).log[i];
            holds(state, sent.mailbox)
        }),
        state.claim(owner, results).terminal matches Some(mailbox) ==> state.terminal == Some(
            mailbox,
        ),
{
    let claimed = ActorView { owner, epoch: next_epoch(state, owner), ..state };
    lemma_broadcast_mailboxes(claimed, claimed.lease_message(), true, results, i);
}

proof fn lemma_child_exit_mailboxes(state: ActorView, results: Seq<bool>, i: int)
    ensures
        state.log.len() <= i < state.child_exit(results).0.log.len() ==> ({
            let sent = state.child_exit(results).0.log[i];
            holds(state, sent.mailbox)
        }),
{
    let exited = ActorView { child_exited: true, ..state };
    lemma_broadcast_mailboxes(
        exited,
        OutputView::Control(
            crate::protocol::ServerMessageView::ProcessExited {
                message: "The terminal process exited."@,
            },
        ),
        true,
        results,
        i,
    );
}

proof fn lemma_notices(clients: Seq<(u64, ClientOutputTx)>, k: int)
    requires
        0 <= k < crate::runtime::close_notices(clients).len(),
    ensures
        ({
            let notice = crate::runtime::close_notices(clients)[k];
            exists|client: u64| #[trigger] clients.contains((client, notice.0))
        }),
    decreases clients.len(),
{
    if clients.len() > 0 {
        let rest = clients.drop_last();
        if k < crate::runtime::close_notices(rest).len() {
            lemma_notices(rest, k);
            let notice = crate::runtime::close_notices(rest)[k];
            assert(crate::runtime::close_notices(clients)[k] == notice);
            let client = choose|client: u64| #[trigger] rest.contains((client, notice.0));
            let j = choose|j: int| 0 <= j < rest.len() && rest[j] == (client, notice.0);
            assert(clients[j] == (client, notice.0));
            assert(clients.contains((client, notice.0)));
        } else {
            assert(clients[clients.len() - 1] == (clients.last().0, clients.last().1));
            assert(clients.contains((clients.last().0, clients.last().1)));
            assert(crate::runtime::close_notices(clients)[k].0 == clients.last().1);
        }
    }
}

proof fn lemma_missed_within(
    clients: Seq<(u64, ClientOutputTx)>,
    answers: Seq<bool>,
    client: (u64, ClientOutputTx),
)
    requires
        crate::runtime::missed(clients, answers).contains(client),
    ensures
        clients.contains(client),
    decreases clients.len(),
{
    if clients.len() > 0 {
        let rest = clients.drop_last();
        let all = crate::runtime::missed(clients, answers);
        let some = crate::runtime::missed(rest, answers);
        let k = choose|k: int| 0 <= k < all.len() && all[k] == client;
        if k < some.len() {
            assert(some[k] == client);
            lemma_missed_within(rest, answers, client);
            let j = choose|j: int| 0 <= j < rest.len() && rest[j] == client;
            assert(clients[j] == client);
        } else {
            assert(clients[clients.len() - 1] == client);
        }
    }
}

proof fn lemma_event_mailboxes(
    state: ActorView,
    event: PtyEvent,
    draining: bool,
    results: Seq<bool>,
    i: int,
)
    requires
        state.log.len() <= i < state.on_event(event, draining, results).0.log.len(),
    ensures
        ({
            let sent = state.on_event(event, draining, results).0.log[i];
            holds(state, sent.mailbox)
        }),
{
    match event.kind {
        PtyEventKind::Output(bytes) => {
            let contents = crate::octets::octets(bytes);
            let kept = ActorView {
                replay: crate::runtime::retained(state.replay.push(contents)),
                ..state
            };
            lemma_broadcast_mailboxes(kept, OutputView::Bytes(contents), true, results, i);
            let sent = kept.broadcast(OutputView::Bytes(contents), true, results);
            let lost = kept.lost(true, results);
            if i >= sent.log.len() {
                let k = i - sent.log.len();
                lemma_notices(lost, k);
                let notice = crate::runtime::close_notices(lost)[k];
                let answers = if state.terminal is Some {
                    results.skip(1)
                } else {
                    results
                };
                let client = choose|client: u64| #[trigger] lost.contains((client, notice.0));
                lemma_missed_within(state.clients, answers, (client, notice.0));
            }
        },
        PtyEventKind::Eof => lemma_child_exit_mailboxes(state, results, i),
        _ => {},
    }
}

proof fn lemma_attach_client_mailboxes(
    state: ActorView,
    client: u64,
    output: ClientOutputTx,
    results: Seq<bool>,
    i: int,
)
    requires
        state.log.len() <= i < state.attach_client(client, output, results).log.len(),
    ensures
        ({
            let sent = state.attach_client(client, output, results).log[i];
            ||| holds(state, sent.mailbox)
            ||| sent.mailbox == output
        }),
{
    if let Some(previous) = state.controller {
        crate::runtime::lemma_mailbox(state.clients, previous);
    }
}

proof fn lemma_attach_terminal_mailboxes(
    state: ActorView,
    output: ClientOutputTx,
    results: Seq<bool>,
    i: int,
)
    requires
        state.log.len() <= i < state.attach_terminal(output, results).log.len(),
    ensures
        ({
            let sent = state.attach_terminal(output, results).log[i];
            ||| holds(state, sent.mailbox)
            ||| sent.mailbox == output
        }),
{
    let base = ActorView { terminal: Some(output), ..state };
    lemma_broadcast_mailboxes(base, base.lease_message(), true, results, i);
    lemma_claim_mailboxes(base, InputLeaseOwner::Terminal, results, i);
}

/// Output never stops a session. A client whose mailbox refused it is detached;
/// one whose mailbox took it stays.
pub proof fn law_slow_client_is_dropped_alone(
    state: ActorView,
    event: PtyEvent,
    bytes: bytes::Bytes,
    draining: bool,
    results: Seq<bool>,
    i: int,
)
    requires
        state.valid(),
        event.generation == state.generation,
        event.kind == PtyEventKind::Output(bytes),
        results.len() >= state.recipients(true).len(),
        0 <= i < state.clients.len(),
    ensures
        state.on_event(event, draining, results).1 !is Stop,
        state.on_event(event, draining, results).0.attached(state.clients[i].0)
            == results[i + (if state.terminal is Some {
            1int
        } else {
            0int
        })],
{
    let answers = if state.terminal is Some {
        results.skip(1)
    } else {
        results
    };
    lemma_reached_iff(state.clients, answers, i);
    if state.terminal is Some {
        assert(results.skip(1)[i] == results[i + 1]);
    }
}

proof fn lemma_reached_iff(
    clients: Seq<(u64, ClientOutputTx)>,
    answers: Seq<bool>,
    i: int,
)
    requires
        crate::runtime::ids(clients).no_duplicates(),
        0 <= i < clients.len(),
    ensures
        crate::runtime::ids(crate::runtime::reached(clients, answers)).contains(clients[i].0)
            == answers[i],
    decreases clients.len(),
{
    let rest = clients.drop_last();
    let some = crate::runtime::reached(rest, answers);
    let last = clients.len() - 1;
    crate::runtime::lemma_ids_drop_last(clients);
    crate::runtime::lemma_reached(rest, answers, answers);
    crate::runtime::lemma_ids_push(some, clients.last());
    crate::runtime::lemma_push_ids(crate::runtime::ids(some), clients.last().0);
    if i < last {
        lemma_reached_iff(rest, answers, i);
        assert(crate::runtime::ids(rest)[i] == clients[i].0);
    }
}

/// Tells whether everything that `after` has beyond `before` is no terminal output.
pub open spec fn adds_no_output(before: Seq<Delivery>, after: Seq<Delivery>) -> bool {
    forall|i: int|
        before.len() <= i < after.len() ==> !(#[trigger] after[i].message is Bytes)
}

/// A new terminal process starts empty: nothing that an earlier one wrote is kept, and
/// whoever it was started for, and everyone else, is sent none of it. The process counts as
/// running, and has a number of its own.
pub proof fn law_restart_forgets_earlier_output(
    state: ActorView,
    attach: crate::runtime::PendingAttach,
    results: Seq<bool>,
)
    ensures
        ({
            let input = ActorInput::Restarted { attach, result: Ok(()) };
            let (after, request) = state.step(input, results);
            &&& after.replay.len() == 0
            &&& !after.child_exited
            &&& state.generation < u64::MAX ==> after.generation == state.generation + 1
            &&& after.size == state.size
            &&& after.mode == state.mode
            &&& adds_no_output(state.log, after.log)
            &&& request == RequestView::PollShutdown
        }),
{
    let fresh = state.restart();
    match attach {
        crate::runtime::PendingAttach::Terminal { output } => {
            let after = fresh.attach_terminal(output, results);
            let base = ActorView { terminal: Some(output), ..fresh };
            let told = if base.owner == InputLeaseOwner::Terminal {
                base.broadcast(base.lease_message(), true, results)
            } else {
                base.claim(InputLeaseOwner::Terminal, results)
            };
            assert(told.replay.len() == 0);
            assert(after.log =~= told.log);
        },
        crate::runtime::PendingAttach::Client { client_id, output } => {
            let after = fresh.attach_client(client_id@, output, results);
            let base = fresh.hand_over(client_id@, results);
            let messages = base.attach_messages();
            assert(base.replay.len() == 0);
            assert forall|k: int| 0 <= k < messages.len() implies !(#[trigger] messages[k] is Bytes) by {
            }
        },
    }
}

/// What is kept for those who attach later comes from the terminal process that counts: it
/// changes only by what that process writes, which is added at the end, and by a restart,
/// after which nothing is kept.
pub proof fn law_kept_output_is_of_this_process(
    state: ActorView,
    input: ActorInput,
    results: Seq<bool>,
)
    ensures
        ({
            let after = state.step(input, results).0;
            match input {
                ActorInput::PtyPolled(Some(event)) | ActorInput::WaitedForEvent(event) => {
                    if event.generation == state.generation && event.kind is Output {
                        let bytes = crate::octets::octets(event.kind->Output_0);
                        let all = state.replay.push(bytes);
                        &&& after.replay.len() <= all.len()
                        &&& after.replay == all.skip(all.len() - after.replay.len())
                        &&& bytes.len() <= 1_048_576 ==> after.replay.len() > 0
                            && after.replay.last() == bytes
                        &&& all.len() <= 128 && crate::runtime::total_len(all) <= 1_048_576
                            ==> after.replay == all
                    } else {
                        after.replay == state.replay
                    }
                },
                ActorInput::Restarted { result: Ok(_), .. } => after.replay.len() == 0,
                _ => after.replay == state.replay,
            }
        }),
{
    match input {
        ActorInput::PtyPolled(Some(event)) | ActorInput::WaitedForEvent(event) => {
            if event.generation == state.generation && event.kind is Output {
                let bytes = crate::octets::octets(event.kind->Output_0);
                let all = state.replay.push(bytes);
                lemma_kept_tail(all);
            }
        },
        _ => {},
    }
}

proof fn lemma_kept_tail(all: Seq<Seq<u8>>)
    requires
        all.len() > 0,
    ensures
        ({
            let kept = crate::runtime::retained(all);
            &&& kept.len() <= all.len()
            &&& kept == all.skip(all.len() - kept.len())
            &&& all.last().len() <= 1_048_576 ==> kept.len() > 0 && kept.last() == all.last()
            &&& all.len() <= 128 && crate::runtime::total_len(all) <= 1_048_576 ==> kept == all
        }),
    decreases all.len(),
{
    if crate::runtime::fits_replay(all) {
        assert(all.skip(0) =~= all);
    } else {
        let rest = all.drop_first();
        let kept = crate::runtime::retained(rest);
        if rest.len() > 0 {
            lemma_kept_tail(rest);
            assert(rest.skip(rest.len() - kept.len()) =~= all.skip(all.len() - kept.len()));
        } else {
            assert(kept =~= all.skip(1));
            assert(crate::runtime::total_len(rest) == 0);
            assert(crate::runtime::total_len(all) == all[0].len());
        }
    }
}

/// A terminal process that writes is heard by everyone who attaches later: its output,
/// where it is kept whole, is sent to a client that attaches right after.
pub proof fn law_later_client_is_sent_what_was_written(
    state: ActorView,
    event: PtyEvent,
    bytes: bytes::Bytes,
    results: Seq<bool>,
)
    requires
        event.generation == state.generation,
        event.kind == PtyEventKind::Output(bytes),
        crate::octets::octets(bytes).len() <= 1_048_576,
    ensures
        ({
            let after = state.on_event(event, true, results).0;
            let messages = after.attach_messages();
            &&& messages[messages.len() - 2] == OutputView::Bytes(crate::octets::octets(bytes))
            &&& messages.last() == OutputView::Control(
                crate::protocol::ServerMessageView::ReplayFinished,
            )
        }),
{
    let after = state.on_event(event, true, results).0;
    law_kept_output_is_of_this_process(state, ActorInput::PtyPolled(Some(event)), results);
    law_replay_is_marked(after);
    let messages = after.attach_messages();
    let start = messages.len() - after.replay.len() - 2;
    let i = after.replay.len() - 1;
    assert(messages[start + 1 + i] == OutputView::Bytes(after.replay[i]));
}

/// A client that attaches is told first the name of the session, then its size; and who
/// owns the input lease where that may be another than itself.
pub proof fn law_client_is_told_where_it_is(state: ActorView)
    ensures
        ({
            let messages = state.attach_messages();
            let lease = OutputView::Control(
                crate::protocol::ServerMessageView::LeaseChanged {
                    owner: match state.owner {
                        InputLeaseOwner::Terminal => crate::protocol::LeaseOwner::Terminal,
                        InputLeaseOwner::Browser(_) => crate::protocol::LeaseOwner::Browser,
                    },
                    epoch: state.epoch,
                },
            );
            &&& messages[0] == OutputView::Control(
                crate::protocol::ServerMessageView::Ready {
                    session: match state.mode {
                        crate::runtime::SessionMode::NewShell { .. } => "shell"@,
                        crate::runtime::SessionMode::Tmux { session } => session@,
                    },
                },
            )
            &&& messages[1] == OutputView::Control(
                crate::protocol::ServerMessageView::SizeChanged { size: state.size },
            )
            &&& state.terminal is Some || state.owner is Browser ==> messages[2] == lease
            &&& !(state.terminal is Some || state.owner is Browser) ==> messages[2]
                == OutputView::Control(crate::protocol::ServerMessageView::ReplayStarted)
        }),
{
}

/// Input of the attached terminal, and of the browser client in control, is written to a
/// process that runs, byte for byte, and nobody else's is.
pub proof fn law_input_of_the_controller_is_written(
    state: ActorView,
    client_id: crate::runtime::ClientId,
    bytes: bytes::Bytes,
    results: Seq<bool>,
)
    ensures
        ({
            let (after, request) = state.step(
                ActorInput::Command(RuntimeCommand::Input { client_id, bytes }),
                results,
            );
            if state.controller == Some(client_id@) && !state.child_exited {
                &&& request == RequestView::Write(crate::octets::octets(bytes))
                &&& after.owner == InputLeaseOwner::Browser(client_id)
            } else {
                request == RequestView::PollShutdown && after == state
            }
        }),
        ({
            let (after, request) = state.step(
                ActorInput::Command(RuntimeCommand::TerminalInput { bytes }),
                results,
            );
            if state.terminal is Some && !state.child_exited {
                &&& request == RequestView::Write(crate::octets::octets(bytes))
                &&& after.owner == InputLeaseOwner::Terminal
            } else {
                request == RequestView::PollShutdown && after == state
            }
        }),
        ({
            let (after, request) = state.step(
                ActorInput::Command(RuntimeCommand::AcquireControl { client_id }),
                results,
            );
            &&& request == RequestView::PollShutdown
            &&& if state.controller == Some(client_id@) && !state.child_exited {
                after.owner == InputLeaseOwner::Browser(client_id)
            } else {
                after == state
            }
        }),
{
    lemma_claim(state, InputLeaseOwner::Browser(client_id), results);
    lemma_claim(state, InputLeaseOwner::Terminal, results);
}

/// When the input lease passes to another owner, everyone attached is offered the news,
/// with the new owner and number: the terminal first, then each client.
pub proof fn law_everyone_hears_of_a_new_lease(
    state: ActorView,
    owner: InputLeaseOwner,
    results: Seq<bool>,
    i: int,
)
    requires
        state.owner != owner,
        0 <= i < state.clients.len(),
    ensures
        ({
            let after = state.claim(owner, results);
            let first: int = if state.terminal is Some {
                1
            } else {
                0
            };
            let from = state.log.len() as int;
            let news = OutputView::Control(
                crate::protocol::ServerMessageView::LeaseChanged {
                    owner: match owner {
                        InputLeaseOwner::Terminal => crate::protocol::LeaseOwner::Terminal,
                        InputLeaseOwner::Browser(_) => crate::protocol::LeaseOwner::Browser,
                    },
                    epoch: after.epoch,
                },
            );
            &&& after.owner == owner
            &&& state.epoch < u64::MAX ==> after.epoch == state.epoch + 1
            &&& after.log.len() == from + first + state.clients.len()
            &&& state.terminal matches Some(mailbox) ==> after.log[from].mailbox == mailbox
                && after.log[from].message == news
            &&& after.log[from + first + i].mailbox == state.clients[i].1
            &&& after.log[from + first + i].message == news
        }),
{
    lemma_claim(state, owner, results);
    let claimed = ActorView { owner, epoch: next_epoch(state, owner), ..state };
    let first: int = if state.terminal is Some {
        1
    } else {
        0
    };
    assert(claimed.recipients(true)[first + i] == state.clients[i].1);
}

/// A resize gives the terminal its size: a running process is resized, and the browser
/// clients are told once that is done; after the process exited they are told at once. The
/// terminal frontend is not told.
pub proof fn law_resize_reaches_the_process_and_the_clients(
    state: ActorView,
    size: crate::protocol::TerminalSize,
    results: Seq<bool>,
    i: int,
)
    requires
        0 <= i < state.clients.len(),
    ensures
        ({
            let (after, request) = state.step(
                ActorInput::Command(RuntimeCommand::Resize { size }),
                results,
            );
            &&& after.size == size
            &&& !state.child_exited ==> request == RequestView::ResizePty(size) && after.log
                == state.log
            &&& state.child_exited ==> request == RequestView::PollShutdown
                && tells_clients_the_size(state, size, after.log, i)
        }),
        ({
            let (after, request) = state.step(ActorInput::Resized(Ok(())), results);
            &&& request == RequestView::PollShutdown
            &&& tells_clients_the_size(state, state.size, after.log, i)
        }),
{
    let sized = ActorView { size, ..state };
    assert(sized.recipients(false) =~= crate::runtime::browser_mailboxes(state.clients));
    assert(state.recipients(false) =~= crate::runtime::browser_mailboxes(state.clients));
}

/// Tells whether `log` offers the size to each browser client of `state`, and to nobody
/// else; `i` is any of them.
pub open spec fn tells_clients_the_size(
    state: ActorView,
    size: crate::protocol::TerminalSize,
    log: Seq<Delivery>,
    i: int,
) -> bool {
    &&& log.len() == state.log.len() + state.clients.len()
    &&& log[state.log.len() + i].mailbox == state.clients[i].1
    &&& log[state.log.len() + i].message == OutputView::Control(
        crate::protocol::ServerMessageView::SizeChanged { size },
    )
}

/// A browser client in control sets the size where no terminal is attached, as a resize
/// does; no other client changes anything.
pub proof fn law_browser_resize_needs_control(
    state: ActorView,
    client_id: crate::runtime::ClientId,
    size: crate::protocol::TerminalSize,
    results: Seq<bool>,
)
    ensures
        state.step(
            ActorInput::Command(RuntimeCommand::BrowserResize { client_id, size }),
            results,
        ) == (if state.terminal is None && state.controller == Some(client_id@) {
            state.step(ActorInput::Command(RuntimeCommand::Resize { size }), results)
        } else {
            (state, RequestView::PollShutdown)
        }),
{
}

/// Once the terminal process has exited, whoever attaches has a new one started first, and
/// is attached when it runs. Nothing is sent before.
pub proof fn law_attach_after_exit_restarts(
    state: ActorView,
    client_id: crate::runtime::ClientId,
    output: ClientOutputTx,
    results: Seq<bool>,
)
    ensures
        ({
            let by_client = state.step(
                ActorInput::Command(RuntimeCommand::AttachClient { client_id, output }),
                results,
            );
            let by_terminal = state.step(
                ActorInput::Command(RuntimeCommand::AttachTerminal { output }),
                results,
            );
            if state.child_exited {
                &&& by_client.0 == state
                &&& by_client.1 == RequestView::Restart {
                    who: crate::runtime::Recipient::Client(client_id@),
                    mailbox: output,
                }
                &&& by_terminal.0 == state
                &&& by_terminal.1 == RequestView::Restart {
                    who: crate::runtime::Recipient::Terminal,
                    mailbox: output,
                }
            } else {
                &&& by_client.1 == RequestView::PollShutdown
                &&& by_terminal.1 == RequestView::PollShutdown
                &&& by_terminal.0.owner == InputLeaseOwner::Terminal
            }
        }),
{
    lemma_attach_terminal(state, output, results);
}

proof fn lemma_all_taken(n: nat, results: Seq<bool>, from: int)
    requires
        0 <= from,
        from + n <= results.len(),
        forall|i: int| 0 <= i < results.len() ==> #[trigger] results[i],
    ensures
        crate::runtime::accepted(n, results.skip(from)) == n,
    decreases n,
{
    if n > 0 {
        lemma_all_taken((n - 1) as nat, results, from + 1);
        assert(results.skip(from)[0] == results[from]);
        assert(results.skip(from).drop_first() =~= results.skip(from + 1));
    }
}

/// Where every message is taken, a client that attaches is attached with its mailbox and in
/// control, and the terminal that attaches is attached with its own and owns the lease.
pub proof fn law_whoever_attaches_is_attached(
    state: ActorView,
    client_id: crate::runtime::ClientId,
    output: ClientOutputTx,
    results: Seq<bool>,
)
    requires
        state.valid(),
        !state.child_exited,
        results.len() >= state.clients.len() + state.replay.len() + 8,
        forall|i: int| 0 <= i < results.len() ==> #[trigger] results[i],
    ensures
        ({
            let after = state.step(
                ActorInput::Command(RuntimeCommand::AttachClient { client_id, output }),
                results,
            ).0;
            &&& after.controller == Some(client_id@)
            &&& crate::runtime::mailbox_of(after.clients, client_id@) == Some(output)
        }),
        ({
            let after = state.step(
                ActorInput::Command(RuntimeCommand::AttachTerminal { output }),
                results,
            ).0;
            &&& after.terminal == Some(output)
            &&& after.owner == InputLeaseOwner::Terminal
        }),
{
    let base = state.hand_over(client_id@, results);
    let skipped = base.log.len() - state.log.len();
    lemma_all_taken(base.attach_messages().len(), results, skipped);
    lemma_attach_terminal(state, output, results);
    let start = ActorView { terminal: Some(output), ..state };
    let told = if start.owner == InputLeaseOwner::Terminal {
        start.broadcast(start.lease_message(), true, results)
    } else {
        start.claim(InputLeaseOwner::Terminal, results)
    };
    assert(results[0]);
    assert(told.terminal == Some(output));
    lemma_all_taken(told.replay.len(), results, told.log.len() - state.log.len());
    let after = state.attach_client(client_id@, output, results);
    assert(after.clients.last() == (client_id@, output));
}

/// In every round a shutdown request comes first, then what the terminal process wrote, then
/// whether it runs, then one command; without a command the actor waits. Once the process
/// has exited only shutdown requests and commands are looked for.
pub proof fn law_rounds_are_in_order(state: ActorView, results: Seq<bool>)
    ensures
        state.step(ActorInput::Started, results) == (state, RequestView::PollShutdown),
        state.step(ActorInput::Waited, results) == (state, RequestView::PollShutdown),
        state.step(ActorInput::Written(Ok(())), results) == (state, RequestView::PollShutdown),
        state.step(ActorInput::PtyPolled(None), results) == (state, RequestView::PollChild),
        state.step(
            ActorInput::ChildPolled(crate::runtime::ChildStatus::Running),
            results,
        ) == (state, RequestView::PollCommand),
        state.child_exited ==> {
            &&& state.step(ActorInput::ShutdownPolled(None), results) == (
                state,
                RequestView::PollCommand,
            )
            &&& state.step(ActorInput::NoCommand, results) == (state, RequestView::Sleep)
        },
        !state.child_exited ==> {
            &&& state.step(ActorInput::ShutdownPolled(None), results) == (
                state,
                RequestView::PollPty,
            )
            &&& state.step(ActorInput::NoCommand, results) == (state, RequestView::WaitPty)
        },
{
}

/// A session stops for the reason that it is given: a shutdown request or command, its
/// commands or its process ending, or a failure of the process, with the text of that
/// failure.
pub proof fn law_session_stops_for_its_reason(
    state: ActorView,
    reason: crate::runtime::ShutdownReason,
    failure: String,
    error: String,
    draining: bool,
    results: Seq<bool>,
)
    ensures
        state.step(ActorInput::ShutdownPolled(Some(reason)), results) == (
            state,
            RequestView::Stop(reason@),
        ),
        state.step(ActorInput::Command(RuntimeCommand::Shutdown { reason }), results) == (
            state,
            RequestView::Stop(reason@),
        ),
        state.step(ActorInput::CommandsClosed, results) == (
            state,
            RequestView::Stop(ReasonView::Supervisor),
        ),
        state.step(ActorInput::Written(Err(failure)), results) == (
            state,
            RequestView::Stop(ReasonView::RuntimeError(failure@)),
        ),
        state.step(ActorInput::Resized(Err(failure)), results) == (
            state,
            RequestView::Stop(ReasonView::RuntimeError(failure@)),
        ),
        state.step(
            ActorInput::ChildPolled(crate::runtime::ChildStatus::Failed(failure)),
            results,
        ) == (state, RequestView::Stop(ReasonView::RuntimeError(failure@))),
        state.step(
            ActorInput::Probed { error, draining, status: crate::runtime::ChildStatus::Running },
            results,
        ) == (state, RequestView::Stop(ReasonView::RuntimeError(error@))),
        state.step(
            ActorInput::Probed {
                error,
                draining,
                status: crate::runtime::ChildStatus::Failed(failure),
            },
            results,
        ) == (state, RequestView::Stop(ReasonView::RuntimeError(error@))),
{
}

/// Output that could not be read is looked into before anything else: an exited process
/// accounts for it, and is handled as one.
pub proof fn law_unreadable_output_is_looked_into(
    state: ActorView,
    event: PtyEvent,
    error: String,
    draining: bool,
    results: Seq<bool>,
)
    requires
        event.generation == state.generation,
        event.kind == PtyEventKind::ReaderError(error),
    ensures
        state.on_event(event, draining, results) == (
            state,
            RequestView::Probe { error: error@, draining },
        ),
        ({
            let probed = state.step(
                ActorInput::Probed {
                    error,
                    draining,
                    status: crate::runtime::ChildStatus::Exited,
                },
                results,
            );
            let polled = state.step(
                ActorInput::ChildPolled(crate::runtime::ChildStatus::Exited),
                results,
            );
            &&& probed.0 == polled.0
            &&& probed.1 is Stop == polled.1 is Stop
        }),
{
}

/// However the end of the terminal process is noticed, it is handled alike: a session that
/// ends stops with that reason and sends nothing; one that holds offers the news to everyone
/// attached, once, and goes on.
pub proof fn law_every_end_is_handled_alike(
    state: ActorView,
    event: PtyEvent,
    results: Seq<bool>,
    i: int,
)
    requires
        !state.child_exited,
        event.generation == state.generation,
        event.kind is Eof,
        0 <= i < state.clients.len(),
    ensures
        ({
            let by_eof = state.step(ActorInput::PtyPolled(Some(event)), results);
            let by_wait = state.step(ActorInput::WaitedForEvent(event), results);
            let by_poll = state.step(
                ActorInput::ChildPolled(crate::runtime::ChildStatus::Exited),
                results,
            );
            let by_close = state.step(ActorInput::EventsClosed, results);
            let after = by_poll.0;
            let first: int = if state.terminal is Some {
                1
            } else {
                0
            };
            &&& by_eof.0 == after
            &&& by_wait.0 == after
            &&& by_close.0 == after
            &&& state.exit_policy == ExitPolicy::End ==> {
                &&& after == state
                &&& by_poll.1 == RequestView::Stop(ReasonView::ChildExit)
                &&& by_eof.1 == RequestView::Stop(ReasonView::ChildExit)
                &&& by_wait.1 == RequestView::Stop(ReasonView::ChildExit)
                &&& by_close.1 == RequestView::Stop(ReasonView::ChildExit)
            }
            &&& state.exit_policy == ExitPolicy::Hold ==> {
                &&& after.child_exited
                &&& after.replay == state.replay
                &&& by_poll.1 == RequestView::PollCommand
                &&& by_eof.1 == RequestView::PollPty
                &&& by_wait.1 == RequestView::PollShutdown
                &&& by_close.1 == RequestView::PollShutdown
                &&& after.log.len() == state.log.len() + first + state.clients.len()
                &&& after.log[state.log.len() + first + i].mailbox == state.clients[i].1
                &&& after.log[state.log.len() + first + i].message == OutputView::Control(
                    crate::protocol::ServerMessageView::ProcessExited {
                        message: "The terminal process exited."@,
                    },
                )
            }
        }),
{
    let first: int = if state.terminal is Some {
        1
    } else {
        0
    };
    let exited = ActorView { child_exited: true, ..state };
    assert(exited.recipients(true)[first + i] == state.clients[i].1);
}

/// A session that closes offers the reason to everyone attached, each in its own mailbox,
/// and nobody is attached then.
pub proof fn law_close_tells_everyone(
    state: ActorView,
    reason: ReasonView,
    results: Seq<bool>,
    i: int,
)
    requires
        0 <= i < state.clients.len(),
    ensures
        ({
            let after = state.close(reason, results);
            let first: int = if state.terminal is Some {
                1
            } else {
                0
            };
            let from = state.log.len() as int;
            &&& after.terminal is None
            &&& after.clients.len() == 0
            &&& after.controller is None
            &&& after.log.len() == from + first + state.clients.len()
            &&& state.terminal matches Some(mailbox) ==> after.log[from].mailbox == mailbox
                && after.log[from].message == OutputView::Closed(reason)
            &&& after.log[from + first + i].mailbox == state.clients[i].1
            &&& after.log[from + first + i].message == OutputView::Closed(reason)
        }),
{
    let first: int = if state.terminal is Some {
        1
    } else {
        0
    };
    assert(state.recipients(true)[first + i] == state.clients[i].1);
}

/// A client that cannot keep up with the output is warned and then closed, in its own
/// mailbox, after everyone was offered the output.
pub proof fn law_slow_client_is_warned_and_closed(
    state: ActorView,
    bytes: Seq<u8>,
    results: Seq<bool>,
    i: int,
)
    requires
        results.len() >= state.recipients(true).len(),
        0 <= i < state.lost(true, results).len(),
    ensures
        ({
            let after = state.output(bytes, results);
            let lost = state.lost(true, results);
            let from = state.log.len() + state.recipients(true).len();
            &&& after.log.len() == from + 2 * lost.len()
            &&& after.log[from + 2 * i].mailbox == lost[i].1
            &&& after.log[from + 2 * i].message == OutputView::Control(
                crate::protocol::ServerMessageView::Warning {
                    code: crate::protocol::WarningCode::ClientBackpressure,
                    message: "browser client could not keep up"@,
                },
            )
            &&& after.log[from + 2 * i + 1].mailbox == lost[i].1
            &&& after.log[from + 2 * i + 1].message == OutputView::Closed(
                ReasonView::ClientDisconnect,
            )
        }),
{
    let lost = state.lost(true, results);
    let kept = ActorView {
        replay: crate::runtime::retained(state.replay.push(bytes)),
        ..state
    };
    assert(kept.recipients(true) =~= state.recipients(true));
    assert(kept.lost(true, results) =~= lost);
    lemma_notice_of(lost, i);
}

proof fn lemma_notice_of(clients: Seq<(u64, ClientOutputTx)>, i: int)
    requires
        0 <= i < clients.len(),
    ensures
        ({
            let notices = crate::runtime::close_notices(clients);
            &&& notices.len() == 2 * clients.len()
            &&& notices[2 * i].0 == clients[i].1
            &&& notices[2 * i].1 == OutputView::Control(
                crate::protocol::ServerMessageView::Warning {
                    code: crate::protocol::WarningCode::ClientBackpressure,
                    message: "browser client could not keep up"@,
                },
            )
            &&& notices[2 * i + 1].0 == clients[i].1
            &&& notices[2 * i + 1].1 == OutputView::Closed(ReasonView::ClientDisconnect)
        }),
    decreases clients.len(),
{
    let rest = clients.drop_last();
    if rest.len() > 0 {
        lemma_notice_of(
            rest,
            if i < rest.len() {
                i
            } else {
                0
            },
        );
    } else {
        assert(crate::runtime::close_notices(rest).len() == 0);
    }
}

/// The terminal that attaches is offered the news of the lease and then all that is kept,
/// in order, as long as its mailbox takes it.
pub proof fn law_terminal_is_sent_what_was_written(
    state: ActorView,
    output: ClientOutputTx,
    results: Seq<bool>,
    i: int,
)
    requires
        results.len() >= state.clients.len() + state.replay.len() + 1,
        forall|k: int| 0 <= k < results.len() ==> #[trigger] results[k],
        0 <= i < state.replay.len(),
    ensures
        ({
            let after = state.attach_terminal(output, results);
            let from = state.log.len() as int;
            let sent = after.log[from + 1 + state.clients.len() + i];
            &&& after.log[from].mailbox == output
            &&& after.log[from].message == OutputView::Control(
                crate::protocol::ServerMessageView::LeaseChanged {
                    owner: crate::protocol::LeaseOwner::Terminal,
                    epoch: after.epoch,
                },
            )
            &&& after.log.len() == from + 1 + state.clients.len() + state.replay.len()
            &&& sent.mailbox == output
            &&& sent.message == OutputView::Bytes(state.replay[i])
        }),
{
    lemma_attach_terminal(state, output, results);
    let start = ActorView { terminal: Some(output), ..state };
    let told = if start.owner == InputLeaseOwner::Terminal {
        start.broadcast(start.lease_message(), true, results)
    } else {
        start.claim(InputLeaseOwner::Terminal, results)
    };
    assert(results[0]);
    assert(told.log.len() == state.log.len() + 1 + state.clients.len());
    lemma_all_taken(told.replay.len(), results, 1 + state.clients.len() as int);
}

/// Where a new terminal process cannot be started, whoever waits for it is told why in its
/// own mailbox, and the session stops with that reason.
pub proof fn law_failed_restart_is_reported(
    state: ActorView,
    attach: crate::runtime::PendingAttach,
    error: crate::runtime::RuntimeError,
    results: Seq<bool>,
)
    ensures
        ({
            let (after, request) = state.step(
                ActorInput::Restarted { attach, result: Err(error) },
                results,
            );
            let reason = ReasonView::RuntimeError(error.text());
            &&& request == RequestView::Stop(reason)
            &&& after.log.len() == state.log.len() + 1
            &&& after.log.last().mailbox == attach.mailbox()
            &&& after.log.last().message == OutputView::Closed(reason)
            &&& after == (ActorView { log: after.log, ..state })
        }),
{
}

/// A session starts with nobody attached, nothing kept and nothing sent, the terminal owning
/// the input lease, and what it was configured with.
pub proof fn law_session_starts_empty(config: crate::runtime::RuntimeConfig)
    ensures
        ({
            let state = crate::runtime::initial_state(config);
            &&& state.valid()
            &&& state.terminal is None
            &&& state.clients.len() == 0
            &&& state.controller is None
            &&& state.owner == InputLeaseOwner::Terminal
            &&& state.epoch == 0
            &&& state.generation == 0
            &&& !state.child_exited
            &&& state.replay.len() == 0
            &&& state.log.len() == 0
            &&& state.size == config.initial_size
            &&& state.mode == config.mode
            &&& state.exit_policy == config.exit_policy
        }),
{
}

/// Who leaves takes nothing from the others: another client keeps control, and the terminal,
/// the lease, the size and the kept output stay.
pub proof fn law_leaving_client_leaves_the_rest(
    state: ActorView,
    client_id: crate::runtime::ClientId,
    results: Seq<bool>,
)
    ensures
        ({
            let (after, request) = state.step(
                ActorInput::Command(RuntimeCommand::DetachClient { client_id }),
                results,
            );
            &&& request == RequestView::PollShutdown
            &&& state.controller != Some(client_id@) ==> after.controller == state.controller
            &&& state.controller == Some(client_id@) ==> after.controller is None
            &&& after == (ActorView {
                clients: after.clients,
                controller: after.controller,
                ..state
            })
            &&& !state.attached(client_id@) ==> after.clients == state.clients
        }),
{
    lemma_without_nobody(state.clients, client_id@);
}

proof fn lemma_without_nobody(clients: Seq<(u64, ClientOutputTx)>, client: u64)
    ensures
        !crate::runtime::ids(clients).contains(client) ==> crate::runtime::without(clients, client)
            == clients,
    decreases clients.len(),
{
    if clients.len() > 0 && !crate::runtime::ids(clients).contains(client) {
        let rest = clients.drop_last();
        assert forall|k: int| 0 <= k < rest.len() implies crate::runtime::ids(rest)[k] != client by {
            assert(crate::runtime::ids(rest)[k] == crate::runtime::ids(clients)[k]);
            assert(crate::runtime::ids(clients).contains(crate::runtime::ids(clients)[k]));
        }
        lemma_without_nobody(rest, client);
        assert(crate::runtime::ids(clients)[clients.len() - 1] == clients.last().0);
        assert(crate::runtime::ids(clients).contains(clients.last().0));
        assert(rest.push(clients.last()) =~= clients);
    }
}

/// A message that everyone takes changes nobody's place: all stay attached, and who had
/// control has it. A terminal that refuses it is detached.
pub proof fn law_taken_message_changes_nothing(
    state: ActorView,
    message: OutputView,
    with_terminal: bool,
    results: Seq<bool>,
)
    requires
        state.valid(),
        results.len() >= state.clients.len() + 1,
    ensures
        ({
            let after = state.broadcast(message, with_terminal, results);
            &&& (forall|k: int| 0 <= k < results.len() ==> #[trigger] results[k]) ==> after == (
            ActorView { log: after.log, ..state })
            &&& with_terminal && state.terminal is Some ==> after.terminal == (if results[0] {
                state.terminal
            } else {
                None
            })
            &&& !with_terminal ==> after.terminal == state.terminal
        }),
{
    let after = state.broadcast(message, with_terminal, results);
    if forall|k: int| 0 <= k < results.len() ==> #[trigger] results[k] {
        assert(results[0]);
        let answers = if with_terminal && state.terminal is Some {
            results.skip(1)
        } else {
            results
        };
        assert forall|k: int| 0 <= k < state.clients.len() implies #[trigger] answers[k] by {
            if with_terminal && state.terminal is Some {
                assert(results.skip(1)[k] == results[k + 1]);
            }
        }
        lemma_all_reached(state.clients, answers);
    }
}

proof fn lemma_all_reached(clients: Seq<(u64, ClientOutputTx)>, answers: Seq<bool>)
    requires
        forall|k: int| 0 <= k < clients.len() ==> #[trigger] answers[k],
    ensures
        crate::runtime::reached(clients, answers) == clients,
    decreases clients.len(),
{
    if clients.len() > 0 {
        lemma_all_reached(clients.drop_last(), answers);
        assert(answers[clients.len() - 1]);
        assert(clients.drop_last().push(clients.last()) =~= clients);
    } else {
        assert(crate::runtime::reached(clients, answers) =~= clients);
    }
}

/// Who owns the input lease already goes on with it, and nobody is told anything.
pub proof fn law_owner_keeps_the_lease_quietly(state: ActorView, results: Seq<bool>)
    ensures
        state.claim(state.owner, results) == state,
{
}

/// A client whose mailbox refuses what it is told at first is not in control, and nobody is.
pub proof fn law_refused_attach_leaves_nobody_in_control(
    state: ActorView,
    client: u64,
    output: ClientOutputTx,
    results: Seq<bool>,
    i: int,
)
    requires
        ({
            let told = state.hand_over(client, results);
            let rest = results.skip(told.log.len() - state.log.len());
            &&& 0 <= i < told.attach_messages().len()
            &&& i < rest.len()
            &&& !rest[i]
            &&& forall|k: int| 0 <= k < i ==> #[trigger] rest[k]
        }),
    ensures
        ({
            let after = state.attach_client(client, output, results);
            let told = state.hand_over(client, results);
            &&& after.controller is None
            &&& after.clients == told.clients
            &&& after.log.len() == told.log.len() + i + 1
            &&& after.log.last().mailbox == output
            &&& !after.log.last().delivered
        }),
{
    let told = state.hand_over(client, results);
    let rest = results.skip(told.log.len() - state.log.len());
    lemma_refused_at(told.attach_messages().len(), rest, i);
}

proof fn lemma_refused_at(n: nat, results: Seq<bool>, i: int)
    requires
        0 <= i < n,
        i < results.len(),
        !results[i],
        forall|k: int| 0 <= k < i ==> #[trigger] results[k],
    ensures
        crate::runtime::accepted(n, results) == i,
    decreases n,
{
    if i > 0 {
        let rest = results.drop_first();
        assert(results[0]);
        assert(rest[i - 1] == results[i]);
        assert forall|k: int| 0 <= k < i - 1 implies #[trigger] rest[k] by {
            assert(results[k + 1]);
        }
        lemma_refused_at((n - 1) as nat, rest, i - 1);
    }
}

/// What is kept for those who attach later is at most a mebibyte in at most 128 pieces, so
/// that a client is sent at most 133 messages when it attaches.
pub proof fn law_kept_output_is_bounded(state: ActorView)
    ensures
        state.valid() ==> {
            &&& state.replay.len() <= 128
            &&& crate::runtime::total_len(state.replay) <= 1_048_576
            &&& state.attach_messages().len() <= 133
        },
        state.replay.len() <= 128 && crate::runtime::total_len(state.replay) <= 1_048_576
            ==> crate::runtime::fits_replay(state.replay),
{
}

/// A read gives the bytes that were read, and nothing behind them; a read of nothing is the
/// end, and a failure is told.
pub proof fn law_read_gives_what_was_read(
    count: usize,
    buffer: Seq<u8>,
    failure: String,
    kind: PtyEventKind,
)
    ensures
        crate::runtime::is_read_event(Ok(count), buffer, kind) ==> {
            &&& count == 0 <==> kind is Eof
            &&& 0 < count <= buffer.len() <==> kind is Output
            &&& kind matches PtyEventKind::Output(bytes) ==> crate::octets::octets(bytes).len()
                == count && crate::octets::octets(bytes) == buffer.take(count as int)
        },
        crate::runtime::is_read_event(Err(failure), buffer, kind) ==> {
            &&& kind matches PtyEventKind::ReaderError(error)
            &&& error@ == failure@
        },
{
}

} // verus!
