//! Which ports the program connects to.

use vstd::prelude::*;

use crate::connection::MidiConnection;
use crate::error::ErrorView;
use crate::laws::ending::{grew, kept_awake, leads_to, lemma_kept_awake};
use crate::midi_out::{self, MidiOut};
use crate::program::{self, AppView, RETRY_MILLIS};
use crate::protocol::{AskView, ReplyView, Run, World};
use crate::text;

verus! {

/// The replies begin with the names of ports.
pub open spec fn begin_with_names(replies: Seq<ReplyView>, names: Seq<Seq<char>>) -> bool {
    names.len() <= replies.len() && forall|i: int| 0 <= i < names.len() ==> #[trigger] replies[i]
        == ReplyView::Name(names[i])
}

/// No name begins with the prefix.
pub open spec fn none_begins_with(names: Seq<Seq<char>>, prefix: Seq<char>) -> bool {
    forall|i: int| 0 <= i < names.len() ==> !text::begins_with(#[trigger] names[i], prefix)
}

/// The requests for the names of the input ports from `port` on.
pub open spec fn input_names(port: usize, count: nat) -> Seq<AskView> {
    Seq::new(count, |i: int| AskView::InputName((port + i) as usize))
}

/// The requests for the names of the output ports from `port` on.
pub open spec fn output_names(port: usize, count: nat) -> Seq<AskView> {
    Seq::new(count, |i: int| AskView::OutputName((port + i) as usize))
}

/// The world after some asks and the replies to them.
pub open spec fn after_asks<S>(w: World<S>, asks: Seq<AskView>) -> World<S> {
    World { state: w.state, asked: w.asked + asks, replies: w.replies.skip(asks.len() as int) }
}

/// Input ports whose names do not begin with the prefix are passed over.
proof fn lemma_inputs_passed_over(
    w: World<AppView>,
    port: usize,
    count: usize,
    names: Seq<Seq<char>>,
)
    requires
        port + names.len() <= count,
        begin_with_names(w.replies, names),
        none_begins_with(names, w.state.device_prefix),
    ensures
        w.find_input(port, count) == after_asks(w, input_names(port, names.len())).find_input(
            (port + names.len()) as usize,
            count,
        ),
    decreases names.len(),
{
    if names.len() == 0 {
        assert(after_asks(w, input_names(port, 0)) == w) by {
            assert(w.asked + input_names(port, 0) =~= w.asked);
            assert(w.replies.skip(0) =~= w.replies);
        }
    } else {
        let v = w.ask(AskView::InputName(port)).taken();
        let rest = names.skip(1);
        assert(w.replies[0] == ReplyView::Name(names[0]));
        assert forall|i: int| 0 <= i < rest.len() implies #[trigger] v.replies[i]
            == ReplyView::Name(rest[i]) by {
            assert(w.replies[i + 1] == ReplyView::Name(names[i + 1]));
        }
        assert forall|i: int| 0 <= i < rest.len() implies !text::begins_with(
            #[trigger] rest[i],
            w.state.device_prefix,
        ) by {
            assert(rest[i] == names[i + 1]);
        }
        lemma_inputs_passed_over(v, (port + 1) as usize, count, rest);
        assert(after_asks(v, input_names((port + 1) as usize, rest.len())) == after_asks(
            w,
            input_names(port, names.len()),
        )) by {
            assert(v.asked + input_names((port + 1) as usize, rest.len()) =~= w.asked
                + input_names(port, names.len()));
            assert(v.replies.skip(rest.len() as int) =~= w.replies.skip(names.len() as int));
        }
    }
}

/// Among the input ports, the first one whose name begins with the prefix is taken.
pub proof fn the_first_matching_input_is_taken(
    w: World<AppView>,
    count: usize,
    names: Seq<Seq<char>>,
)
    requires
        0 < names.len() <= count,
        begin_with_names(w.replies, names),
        none_begins_with(names.drop_last(), w.state.device_prefix),
        text::begins_with(names.last(), w.state.device_prefix),
    ensures
        w.find_input(0, count) == after_asks(w, input_names(0, names.len())).open_output_for(
            (names.len() - 1) as usize,
            names.last(),
        ),
{
    let others = names.drop_last();
    assert forall|i: int| 0 <= i < others.len() implies #[trigger] w.replies[i]
        == ReplyView::Name(others[i]) by {
        assert(others[i] == names[i]);
    }
    lemma_inputs_passed_over(w, 0, count, others);
    let v = after_asks(w, input_names(0, others.len()));
    assert(w.replies[names.len() - 1] == ReplyView::Name(names.last()));
    assert(v.replies[0] == ReplyView::Name(names.last()));
    assert(v.ask(AskView::InputName((names.len() - 1) as usize)).taken() == after_asks(
        w,
        input_names(0, names.len()),
    )) by {
        assert(v.asked.push(AskView::InputName((names.len() - 1) as usize)) =~= w.asked
            + input_names(0, names.len()));
        assert(v.replies.skip(1) =~= w.replies.skip(names.len() as int));
    }
}

/// Where no input port has a name that begins with the prefix, there is no piano to connect
/// to, which the program waits for: the tick is over after a moment, and there is another.
pub proof fn a_missing_piano_is_waited_for(w: World<AppView>, count: usize, names: Seq<Seq<char>>)
    requires
        w.state.midi is None,
        names.len() == count,
        w.replies.len() > 0,
        w.replies[0] == ReplyView::Ports(count),
        begin_with_names(w.replies.skip(1), names),
        none_begins_with(names, w.state.device_prefix),
        w.replies.len() > count + 1,
        w.replies[count + 1] == ReplyView::Done,
    ensures
        w.listen() == Run::Returned(
            after_asks(
                w,
                seq![AskView::OpenInputs(program::input_client())] + input_names(0, names.len())
                    + seq![AskView::Sleep(RETRY_MILLIS)],
            ),
            Ok::<bool, ErrorView>(true),
        ),
{
    let v = w.ask(AskView::OpenInputs(program::input_client())).taken();
    lemma_inputs_passed_over(v, 0, count, names);
    let u = after_asks(v, input_names(0, names.len()));
    assert(v.find_input(0, count) == Run::Returned(
        u,
        Err::<(), ErrorView>(ErrorView::NoMatchingMidiPort),
    ));
    assert(u.replies[0] == w.replies[count + 1]);
    let x = u.ask(AskView::Sleep(RETRY_MILLIS)).taken();
    let asks = seq![AskView::OpenInputs(program::input_client())] + input_names(0, names.len())
        + seq![AskView::Sleep(RETRY_MILLIS)];
    assert(x == after_asks(w, asks)) by {
        assert(x.asked =~= w.asked + asks);
        assert(x.replies =~= w.replies.skip(asks.len() as int));
    }
}

/// Output ports whose names do not begin with the prefix are passed over.
proof fn lemma_outputs_passed_over(
    w: World<()>,
    prefix: Seq<char>,
    port: usize,
    count: usize,
    names: Seq<Seq<char>>,
)
    requires
        port + names.len() <= count,
        begin_with_names(w.replies, names),
        none_begins_with(names, prefix),
    ensures
        w.find_output(prefix, port, count) == after_asks(
            w,
            output_names(port, names.len()),
        ).find_output(prefix, (port + names.len()) as usize, count),
    decreases names.len(),
{
    if names.len() == 0 {
        assert(after_asks(w, output_names(port, 0)) == w) by {
            assert(w.asked + output_names(port, 0) =~= w.asked);
            assert(w.replies.skip(0) =~= w.replies);
        }
    } else {
        let v = w.ask(AskView::OutputName(port)).taken();
        let rest = names.skip(1);
        assert(w.replies[0] == ReplyView::Name(names[0]));
        assert forall|i: int| 0 <= i < rest.len() implies #[trigger] v.replies[i]
            == ReplyView::Name(rest[i]) by {
            assert(w.replies[i + 1] == ReplyView::Name(names[i + 1]));
        }
        assert forall|i: int| 0 <= i < rest.len() implies !text::begins_with(
            #[trigger] rest[i],
            prefix,
        ) by {
            assert(rest[i] == names[i + 1]);
        }
        lemma_outputs_passed_over(v, prefix, (port + 1) as usize, count, rest);
        assert(after_asks(v, output_names((port + 1) as usize, rest.len())) == after_asks(
            w,
            output_names(port, names.len()),
        )) by {
            assert(v.asked + output_names((port + 1) as usize, rest.len()) =~= w.asked
                + output_names(port, names.len()));
            assert(v.replies.skip(rest.len() as int) =~= w.replies.skip(names.len() as int));
        }
    }
}

/// Among the output ports, the first one whose name begins with the prefix is connected to.
pub proof fn the_first_matching_output_is_taken(
    w: World<()>,
    prefix: Seq<char>,
    count: usize,
    names: Seq<Seq<char>>,
)
    requires
        0 < names.len() <= count,
        begin_with_names(w.replies, names),
        none_begins_with(names.drop_last(), prefix),
        text::begins_with(names.last(), prefix),
    ensures
        w.find_output(prefix, 0, count) == after_asks(
            w,
            output_names(0, names.len()),
        ).connect_output((names.len() - 1) as usize),
{
    let others = names.drop_last();
    assert forall|i: int| 0 <= i < others.len() implies #[trigger] w.replies[i]
        == ReplyView::Name(others[i]) by {
        assert(others[i] == names[i]);
    }
    lemma_outputs_passed_over(w, prefix, 0, count, others);
    let v = after_asks(w, output_names(0, others.len()));
    assert(w.replies[names.len() - 1] == ReplyView::Name(names.last()));
    assert(v.replies[0] == ReplyView::Name(names.last()));
    assert(v.ask(AskView::OutputName((names.len() - 1) as usize)).taken() == after_asks(
        w,
        output_names(0, names.len()),
    )) by {
        assert(v.asked.push(AskView::OutputName((names.len() - 1) as usize)) =~= w.asked
            + output_names(0, names.len()));
        assert(v.replies.skip(1) =~= w.replies.skip(names.len() as int));
    }
}

/// Where no output port has a name that begins with the prefix, the program goes without.
pub proof fn a_missing_output_is_no_failure(
    w: World<()>,
    prefix: Seq<char>,
    count: usize,
    names: Seq<Seq<char>>,
)
    requires
        names.len() == count,
        begin_with_names(w.replies, names),
        none_begins_with(names, prefix),
    ensures
        w.find_output(prefix, 0, count) == Run::Returned(
            after_asks(w, output_names(0, names.len())),
            Ok::<Option<MidiOut>, ErrorView>(None),
        ),
{
    lemma_outputs_passed_over(w, prefix, 0, count, names);
}

/// What a search for an output comes to.
proof fn lemma_find_output(w: World<()>, prefix: Seq<char>, port: usize, count: usize)
    ensures
        w.find_output(prefix, port, count) matches Run::Returned(v, result) ==> {
            &&& grew(w.asked, v.asked)
            &&& kept_awake(v.asked) == kept_awake(w.asked)
            &&& v.replies.len() <= w.replies.len()
        },
    decreases count - port,
{
    broadcast use lemma_kept_awake;

    if port < count && w.replies.len() > 0 {
        lemma_find_output(
            w.ask(AskView::OutputName(port)).taken(),
            prefix,
            (port + 1) as usize,
            count,
        );
    }
}

/// There is a connection, over which nothing has come yet.
pub open spec fn nothing_heard(state: AppView) -> bool {
    state.midi matches Some(midi) && midi == MidiConnection::fresh(
        midi.midi_out,
        midi.last_update_instant,
    )
}

/// What a connection comes to.
spec fn connected(w: World<AppView>, v: World<AppView>, result: Result<(), ErrorView>) -> bool {
    &&& leads_to(w, v)
    &&& kept_awake(v.asked) == kept_awake(w.asked)
    &&& v.state == AppView { midi: v.state.midi, ..w.state }
    &&& result is Ok ==> nothing_heard(v.state)
    &&& result is Err ==> v.state.midi is None
}

proof fn lemma_open_output_for(w: World<AppView>, port: usize, name: Seq<char>)
    requires
        w.state.midi is None,
    ensures
        w.open_output_for(port, name) matches Run::Returned(v, result) ==> connected(w, v, result),
{
    broadcast use lemma_kept_awake;

    let x = w.with(()).ask(AskView::OpenOutputs(midi_out::output_client())).taken();
    if w.replies.len() > 0 {
        if let ReplyView::Ports(count) = w.replies[0] {
            lemma_find_output(x, w.state.device_prefix, 0, count);
        }
    }
}

proof fn lemma_find_input(w: World<AppView>, port: usize, count: usize)
    requires
        w.state.midi is None,
    ensures
        w.find_input(port, count) matches Run::Returned(v, result) ==> connected(w, v, result),
    decreases count - port,
{
    broadcast use lemma_kept_awake;

    if port < count && w.replies.len() > 0 {
        let v = w.ask(AskView::InputName(port)).taken();
        lemma_find_input(v, (port + 1) as usize, count);
        if let ReplyView::Name(name) = w.replies[0] {
            lemma_open_output_for(v, port, name);
        }
    }
}

pub(crate) proof fn lemma_start_midi(w: World<AppView>)
    ensures
        w.start_midi_if_needed() matches Run::Returned(v, result) ==> {
            &&& leads_to(w, v)
            &&& kept_awake(v.asked) == kept_awake(w.asked)
            &&& v.state == AppView { midi: v.state.midi, ..w.state }
            &&& w.state.midi is Some ==> v == w && result is Ok
            &&& w.state.midi is None && result is Ok ==> nothing_heard(v.state)
            &&& w.state.midi is None && result is Err ==> v.state.midi is None
        },
{
    broadcast use lemma_kept_awake;

    if w.state.midi is None && w.replies.len() > 0 {
        if let ReplyView::Ports(count) = w.replies[0] {
            lemma_find_input(
                w.ask(AskView::OpenInputs(program::input_client())).taken(),
                0,
                count,
            );
        }
    }
}

/// To connect changes nothing but the connection. The new one has heard nothing, and where
/// none comes about, there is none. A connection that is there is kept.
pub proof fn only_the_connection_is_new(w: World<AppView>)
    ensures
        w.start_midi_if_needed() matches Run::Returned(v, result) ==> {
            &&& v.state == AppView { midi: v.state.midi, ..w.state }
            &&& w.state.midi is Some ==> v == w && result is Ok
            &&& w.state.midi is None && result is Ok ==> nothing_heard(v.state)
            &&& w.state.midi is None && result is Err ==> v.state.midi is None
        },
{
    lemma_start_midi(w);
}

/// Where the connection comes about, it is to the first input port whose name begins with the
/// prefix, under the name of that port, and it is asked for last. Before that the ports were
/// asked for their names, in order and no further than needed.
pub proof fn the_matching_port_is_connected_to(
    w: World<AppView>,
    count: usize,
    names: Seq<Seq<char>>,
)
    requires
        w.state.midi is None,
        w.replies.len() > 0,
        w.replies[0] == ReplyView::Ports(count),
        0 < names.len() <= count,
        begin_with_names(w.replies.skip(1), names),
        none_begins_with(names.drop_last(), w.state.device_prefix),
        text::begins_with(names.last(), w.state.device_prefix),
    ensures
        w.start_midi_if_needed() matches Run::Returned(v, Ok(_)) ==> {
            &&& v.asked.len() > 0
            &&& v.asked.last() == AskView::ConnectInput((names.len() - 1) as usize, names.last())
            &&& grew(
                w.asked + (seq![AskView::OpenInputs("midi-start-program_input"@)] + input_names(
                    0,
                    names.len(),
                )).push(AskView::OpenOutputs("midi-start-program_output"@)),
                v.asked,
            )
        },
{
    let v = w.ask(AskView::OpenInputs(program::input_client())).taken();
    the_first_matching_input_is_taken(v, count, names);
    let u = after_asks(v, input_names(0, names.len()));
    let x = u.with(()).ask(AskView::OpenOutputs(midi_out::output_client())).taken();
    assert(w.start_midi_if_needed() == u.open_output_for(
        (names.len() - 1) as usize,
        names.last(),
    ));
    if u.replies.len() > 0 {
        if let ReplyView::Ports(outputs) = u.replies[0] {
            lemma_find_output(x, u.state.device_prefix, 0, outputs);
        }
    }
    assert(x.asked =~= w.asked + (seq![AskView::OpenInputs("midi-start-program_input"@)]
        + input_names(0, names.len())).push(AskView::OpenOutputs("midi-start-program_output"@)));
}

/// Where a connection comes about with no output port that matches, it is one way. Where an
/// output port matches, the first such port is connected to, and messages go out on the first
/// channel.
pub proof fn the_matching_output_is_connected_to(
    w: World<()>,
    prefix: Seq<char>,
    count: usize,
    names: Seq<Seq<char>>,
)
    requires
        w.replies.len() > names.len() + 1,
        w.replies[0] == ReplyView::Ports(count),
        0 < names.len() <= count,
        begin_with_names(w.replies.skip(1), names),
        none_begins_with(names.drop_last(), prefix),
        text::begins_with(names.last(), prefix),
        w.replies[names.len() as int + 1] == ReplyView::Done,
    ensures
        w.open_output(prefix) matches Run::Returned(v, Ok(Some(midi_out))) && midi_out.channel()
            == 0 && v == after_asks(
            w,
            (seq![AskView::OpenOutputs("midi-start-program_output"@)] + output_names(
                0,
                names.len(),
            )).push(
                AskView::ConnectOutput(
                    (names.len() - 1) as usize,
                    "midi-start-program_output"@,
                ),
            ),
        ),
{
    let u = w.ask(AskView::OpenOutputs(midi_out::output_client())).taken();
    the_first_matching_output_is_taken(u, prefix, count, names);
    let x = after_asks(u, output_names(0, names.len()));
    MidiOut::first_channel();
    let asks = (seq![AskView::OpenOutputs("midi-start-program_output"@)] + output_names(
        0,
        names.len(),
    )).push(
        AskView::ConnectOutput((names.len() - 1) as usize, "midi-start-program_output"@),
    );
    let port = (names.len() - 1) as usize;
    assert(x.replies[0] == w.replies[names.len() as int + 1]);
    let y = x.ask(AskView::ConnectOutput(port, midi_out::output_client())).taken();
    assert(y.asked =~= w.asked + asks);
    assert(y.replies =~= w.replies.skip(asks.len() as int));
}

} // verus!
