//! Interfaces that a platform shell implements to connect the engines to its
//! own windowing, notification, logging, path and process facilities.

use crate::text::strings_view;
use vstd::prelude::*;

verus! {

/// A command as it is handed to a spawner: the program and its arguments.
#[derive(Debug)]
pub struct CommandLine {
    pub program: String,
    pub args: Vec<String>,
}

/// A command as sequences of characters.
pub struct CommandLineView {
    pub program: Seq<char>,
    pub args: Seq<Seq<char>>,
}

impl View for CommandLine {
    type V = CommandLineView;

    open spec fn view(&self) -> CommandLineView {
        CommandLineView { program: self.program@, args: strings_view(self.args@) }
    }
}

/// The standard library's owned file system path. The engines only carry such
/// a value from the platform to whoever reads or writes the file: nothing is
/// known of what it holds.
#[verifier::external_type_specification]
#[verifier::external_body]
pub struct ExPathBuf(std::path::PathBuf);

/// A tray or menu surface.
pub trait TrayUi {
    type MenuId;

    fn refresh(&self);

    fn set_active(&self, any_active: bool);

    fn set_menu_item_state(&self, id: &Self::MenuId, active: bool);
}

/// A channel for notifications that the user sees.
pub trait Notifier {
    fn info(&self, title: &str, body: &str);

    fn warn(&self, title: &str, body: &str);

    fn error(&self, title: &str, body: &str);
}

/// A logging sink beside the default logger.
pub trait LoggerSink {
    fn init(&self);
}

/// Where the platform keeps the configuration file and the task state file.
pub trait AppPaths {
    fn config_path(&self) -> std::path::PathBuf;

    fn state_path(&self) -> std::path::PathBuf;
}

/// A request that was handed to a spawner.
pub enum Request {
    /// Start `line` with `path` as its `PATH`, and do not wait for it.
    Spawn { line: CommandLineView, path: Seq<char> },
    /// Run the stop command `line` to its end.
    Kill { line: CommandLineView },
}

/// Starts and stops external processes.
///
/// Nothing is promised of either method: a command may fail to start for
/// reasons only the operating system knows. The engines state what they do
/// for each outcome.
pub trait ProcessSpawner {
    /// Starts `program` with `args`, with `path` as its `PATH`, and does not
    /// wait for it. An error carries the reason as text.
    fn spawn(&self, program: &str, args: &[String], path: &str) -> Result<(), String>;

    /// Runs the stop command `program` with `args` to its end.
    fn kill(&self, program: &str, args: &[String]) -> Result<(), String>;
}

/// Hands the engines' requests to the platform's spawner and keeps the list
/// of them, so that the engines can say which commands they asked for, and
/// in which order.
pub struct Dispatcher<S: ProcessSpawner> {
    spawner: S,
    handed_over: Ghost<Seq<Request>>,
}

impl<S: ProcessSpawner> Dispatcher<S> {
    /// The requests that were handed to the spawner so far, oldest first.
    pub closed spec fn handed_over(&self) -> Seq<Request> {
        self.handed_over@
    }

    /// The platform's spawner, which the dispatcher holds from its making on.
    pub closed spec fn platform(&self) -> S {
        self.spawner
    }

    /// A dispatcher for `spawner` that has handed nothing over yet.
    pub fn new(spawner: S) -> (dispatcher: Self)
        ensures
            dispatcher.handed_over() == Seq::<Request>::empty(),
            dispatcher.platform() == spawner,
    {
        Dispatcher { spawner, handed_over: Ghost(Seq::empty()) }
    }

    /// The platform's spawner.
    pub fn spawner(&self) -> (spawner: &S)
        ensures
            *spawner == self.platform(),
    {
        &self.spawner
    }

    /// Asks the spawner to start `program` with `args`, with `path` as its
    /// `PATH`, and returns what the spawner answered.
    pub fn spawn(&mut self, program: &str, args: &[String], path: &str) -> (res: Result<(), String>)
        ensures
            final(self).handed_over() == old(self).handed_over().push(
                Request::Spawn {
                    line: CommandLineView { program: program@, args: strings_view(args@) },
                    path: path@,
                },
            ),
            final(self).platform() == old(self).platform(),
    {
        let res = self.spawner.spawn(program, args, path);
        proof {
            self.handed_over@ = self.handed_over@.push(
                Request::Spawn {
                    line: CommandLineView { program: program@, args: strings_view(args@) },
                    path: path@,
                },
            );
        }
        res
    }

    /// Asks the spawner to run the stop command `program` with `args` to its
    /// end, and returns what the spawner answered.
    pub fn kill(&mut self, program: &str, args: &[String]) -> (res: Result<(), String>)
        ensures
            final(self).handed_over() == old(self).handed_over().push(
                Request::Kill {
                    line: CommandLineView { program: program@, args: strings_view(args@) },
                },
            ),
            final(self).platform() == old(self).platform(),
    {
        let res = self.spawner.kill(program, args);
        proof {
            self.handed_over@ = self.handed_over@.push(
                Request::Kill {
                    line: CommandLineView { program: program@, args: strings_view(args@) },
                },
            );
        }
        res
    }
}

} // verus!
