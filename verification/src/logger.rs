use vstd::prelude::*;

verus! {

/// The severity of a log record, most severe first.
#[derive(Clone, Copy)]
pub enum LogLevel {
    Error,
    Warn,
    Info,
    Debug,
    Trace,
}

/// The colours the console log uses.
pub enum LogColor {
    Red,
    Yellow,
    Green,
    Blue,
    Cyan,
}

/// How the level of a record is shown on the console: its colour and whether it is bold.
pub open spec fn level_style_spec(level: LogLevel) -> (LogColor, bool) {
    match level {
        LogLevel::Error => (LogColor::Red, true),
        LogLevel::Warn => (LogColor::Yellow, false),
        LogLevel::Info => (LogColor::Green, false),
        LogLevel::Debug => (LogColor::Blue, false),
        LogLevel::Trace => (LogColor::Cyan, false),
    }
}

/// The colour of a level on the console, and whether it is bold (errors only).
pub fn level_style(level: LogLevel) -> (r: (LogColor, bool))
    ensures
        r == level_style_spec(level),
{
    match level {
        LogLevel::Error => (LogColor::Red, true),
        LogLevel::Warn => (LogColor::Yellow, false),
        LogLevel::Info => (LogColor::Green, false),
        LogLevel::Debug => (LogColor::Blue, false),
        LogLevel::Trace => (LogColor::Cyan, false),
    }
}

/// Every level is logged: the logger lets through everything up to `Trace`.
pub fn enabled(level: LogLevel) -> (r: bool)
    ensures
        r,
{
    true
}

/// The number of dropped messages after one more send attempt, counted modulo the word
/// size as the atomic counter does.
pub fn after_send(dropped: usize, channel_full: bool) -> (r: usize)
    ensures
        channel_full ==> r == (if dropped == usize::MAX {
            0
        } else {
            dropped + 1
        }),
        !channel_full ==> r == dropped,
{
    if channel_full {
        if dropped == usize::MAX {
            0
        } else {
            dropped + 1
        }
    } else {
        dropped
    }
}

/// A message on the log channel.
pub enum LogMsg {
    Message(String),
    Shutdown,
    Flush,
}

/// What the log writer does for one received message.
pub struct WriterStep {
    /// Report this many dropped messages before anything else.
    pub report_dropped: Option<usize>,
    /// Write this text.
    pub write: Option<String>,
    /// Flush the output.
    pub flush: bool,
    /// Answer the flush request.
    pub respond: bool,
    /// Leave the loop.
    pub stop: bool,
}

/// The writer's reaction to a message, given the number of messages dropped since the
/// last one.
pub open spec fn writer_reaction(dropped: usize, msg: LogMsg) -> WriterStep {
    let report_dropped = if dropped > 0 {
        Some(dropped)
    } else {
        None
    };
    match msg {
        LogMsg::Message(s) => WriterStep {
            report_dropped,
            write: Some(s),
            flush: false,
            respond: false,
            stop: false,
        },
        LogMsg::Shutdown => WriterStep {
            report_dropped,
            write: None,
            flush: true,
            respond: false,
            stop: true,
        },
        LogMsg::Flush => WriterStep {
            report_dropped,
            write: None,
            flush: true,
            respond: true,
            stop: false,
        },
    }
}

/// The writer's reaction to a message, given the number of messages dropped since the
/// last one: report the drops, then write a message, or flush and stop on shutdown, or
/// flush and answer a flush request.
pub fn writer_step(dropped: usize, msg: LogMsg) -> (r: WriterStep)
    ensures
        r == writer_reaction(dropped, msg),
        dropped > 0 ==> r.report_dropped == Some(dropped),
        dropped == 0 ==> r.report_dropped is None,
        match msg {
            LogMsg::Message(s) => r.write == Some(s) && !r.flush && !r.respond && !r.stop,
            LogMsg::Shutdown => r.write is None && r.flush && !r.respond && r.stop,
            LogMsg::Flush => r.write is None && r.flush && r.respond && !r.stop,
        },
{
    let report_dropped = if dropped > 0 {
        Some(dropped)
    } else {
        None
    };
    match msg {
        LogMsg::Message(s) => WriterStep {
            report_dropped,
            write: Some(s),
            flush: false,
            respond: false,
            stop: false,
        },
        LogMsg::Shutdown => WriterStep {
            report_dropped,
            write: None,
            flush: true,
            respond: false,
            stop: true,
        },
        LogMsg::Flush => WriterStep {
            report_dropped,
            write: None,
            flush: true,
            respond: true,
            stop: false,
        },
    }
}

/// Whether the logger's writer thread has been told to stop.
pub struct ShutdownState {
    has_shutdown: bool,
}

impl ShutdownState {
    pub closed spec fn done(&self) -> bool {
        self.has_shutdown
    }

    /// A running logger.
    pub fn new() -> (r: ShutdownState)
        ensures
            !r.done(),
    {
        ShutdownState { has_shutdown: false }
    }

    /// An explicit shutdown: returns whether the shutdown message must be sent and the
    /// thread joined (only the first time).
    pub fn shutdown(&mut self) -> (send: bool)
        ensures
            send == !old(self).done(),
            final(self).done(),
    {
        if !self.has_shutdown {
            self.has_shutdown = true;
            true
        } else {
            false
        }
    }

    /// On drop: whether the shutdown message must still be sent and the thread joined.
    pub fn on_drop(&self) -> (send: bool)
        ensures
            send == !self.done(),
    {
        !self.has_shutdown
    }
}

/// The reactions of the writer to a stream of messages (each with the drops counted
/// before it), in order, up to and including the first that stops it.
pub open spec fn writer_run(stream: Seq<(usize, LogMsg)>) -> Seq<WriterStep>
    decreases stream.len(),
{
    if stream.len() == 0 {
        Seq::empty()
    } else {
        let st = writer_reaction(stream[0].0, stream[0].1);
        if st.stop {
            seq![st]
        } else {
            seq![st] + writer_run(stream.drop_first())
        }
    }
}

/// The texts a sequence of reactions writes, in order.
pub open spec fn texts_written(steps: Seq<WriterStep>) -> Seq<String>
    decreases steps.len(),
{
    if steps.len() == 0 {
        Seq::empty()
    } else {
        match steps[0].write {
            Some(t) => seq![t] + texts_written(steps.drop_first()),
            None => texts_written(steps.drop_first()),
        }
    }
}

/// The messages of a stream that come before its first shutdown, in order.
pub open spec fn messages_before_shutdown(stream: Seq<(usize, LogMsg)>) -> Seq<String>
    decreases stream.len(),
{
    if stream.len() == 0 {
        Seq::empty()
    } else {
        match stream[0].1 {
            LogMsg::Message(t) => seq![t] + messages_before_shutdown(stream.drop_first()),
            LogMsg::Shutdown => Seq::empty(),
            LogMsg::Flush => messages_before_shutdown(stream.drop_first()),
        }
    }
}

/// Over a whole stream, the writer writes every message received before the first
/// shutdown, in the order received and each once, and nothing after it; its `i`-th
/// reaction is `writer_step` on the `i`-th message, so drops are reported before the
/// message they precede, flushes are answered, and the run ends at the shutdown.
pub proof fn lemma_writer_run(stream: Seq<(usize, LogMsg)>)
    ensures
        texts_written(writer_run(stream)) == messages_before_shutdown(stream),
        writer_run(stream).len() <= stream.len(),
        forall|i: int|
            0 <= i < writer_run(stream).len() ==> #[trigger] writer_run(stream)[i] == writer_reaction(
                stream[i].0,
                stream[i].1,
            ),
        forall|i: int|
            0 <= i < writer_run(stream).len() - 1 ==> !(#[trigger] writer_run(stream)[i]).stop,
        writer_run(stream).len() < stream.len() ==> writer_run(stream).last().stop,
    decreases stream.len(),
{
    if stream.len() > 0 {
        let st = writer_reaction(stream[0].0, stream[0].1);
        let rest = stream.drop_first();
        lemma_writer_run(rest);
        let run = writer_run(stream);
        if st.stop {
            assert(run == seq![st]);
            assert(stream[0].1 is Shutdown);
            assert(st.write is None);
            assert(seq![st].drop_first() =~= Seq::<WriterStep>::empty());
            assert(texts_written(Seq::<WriterStep>::empty()) == Seq::<String>::empty());
            assert(texts_written(seq![st]) == texts_written(seq![st].drop_first()));
        } else {
            assert(run == seq![st] + writer_run(rest));
            assert(run.drop_first() =~= writer_run(rest));
            assert forall|i: int| 0 <= i < run.len() implies #[trigger] run[i] == writer_reaction(
                stream[i].0,
                stream[i].1,
            ) by {
                if i > 0 {
                    assert(run[i] == writer_run(rest)[i - 1]);
                    assert(stream[i] == rest[i - 1]);
                }
            }
            assert forall|i: int| 0 <= i < run.len() - 1 implies !(#[trigger] run[i]).stop by {
                if i > 0 {
                    assert(run[i] == writer_run(rest)[i - 1]);
                }
            }
            if run.len() < stream.len() {
                assert(writer_run(rest).len() < rest.len());
                assert(run.last() == writer_run(rest).last());
            }
        }
    }
}

} // verus!
