//! The commands of the local console: which one a request names, and what
//! each answers.

use crate::decimal::{parse_unsigned, unsigned_of};
use crate::registry::{has_id, purged, Registry};
use crate::text::{copy_text, same_text, split_words, texts, words};
use crate::timer::{Timer, TimerView};
use vstd::prelude::*;
use vstd::string::StringExecFns;

verus! {

/// The version that the service reports.
pub const VERSION: &'static str = "v.0.2.0";

/// A command of the console, with its options.
#[derive(Debug)]
pub enum ConsoleCommand {
    Startup(Vec<String>),
    Add(Vec<String>),
    Purge(Vec<String>),
    Help(Vec<String>),
    List(Vec<String>),
    Version(Vec<String>),
}

/// The verbs of the console.
#[derive(Clone, Copy, Debug, PartialEq, Eq, Structural)]
pub enum Verb {
    Startup,
    Add,
    Purge,
    Help,
    List,
    Version,
}

impl ConsoleCommand {
    /// The verb of the command.
    pub open spec fn verb(self) -> Verb {
        match self {
            ConsoleCommand::Startup(_) => Verb::Startup,
            ConsoleCommand::Add(_) => Verb::Add,
            ConsoleCommand::Purge(_) => Verb::Purge,
            ConsoleCommand::Help(_) => Verb::Help,
            ConsoleCommand::List(_) => Verb::List,
            ConsoleCommand::Version(_) => Verb::Version,
        }
    }

    /// The options of the command.
    pub open spec fn options(self) -> Seq<String> {
        match self {
            ConsoleCommand::Startup(o) => o@,
            ConsoleCommand::Add(o) => o@,
            ConsoleCommand::Purge(o) => o@,
            ConsoleCommand::Help(o) => o@,
            ConsoleCommand::List(o) => o@,
            ConsoleCommand::Version(o) => o@,
        }
    }
}

/// The verb that a word names, if any.
pub open spec fn verb_of(word: Seq<char>) -> Option<Verb> {
    if word == "startup"@ {
        Some(Verb::Startup)
    } else if word == "add"@ {
        Some(Verb::Add)
    } else if word == "purge"@ {
        Some(Verb::Purge)
    } else if word == "help"@ {
        Some(Verb::Help)
    } else if word == "list"@ {
        Some(Verb::List)
    } else if word == "version"@ {
        Some(Verb::Version)
    } else {
        None
    }
}

/// Finds the command that a verb names and hands it its options. Any
/// other verb is refused.
pub fn command_coordinator(verb: String, options: Vec<String>) -> (r: Result<
    ConsoleCommand,
    String,
>)
    ensures
        match r {
            Ok(command) => verb_of(verb@) == Some(command.verb()) && command.options()
                == options@,
            Err(fault) => verb_of(verb@) is None && fault@ == "Invalid command verb\n"@,
        },
{
    let verb = verb.as_str();
    if same_text(verb, "startup") {
        return Ok(ConsoleCommand::Startup(options));
    }
    if same_text(verb, "add") {
        return Ok(ConsoleCommand::Add(options));
    }
    if same_text(verb, "purge") {
        return Ok(ConsoleCommand::Purge(options));
    }
    if same_text(verb, "help") {
        return Ok(ConsoleCommand::Help(options));
    }
    if same_text(verb, "list") {
        return Ok(ConsoleCommand::List(options));
    }
    if same_text(verb, "version") {
        return Ok(ConsoleCommand::Version(options));
    }
    Err(copy_text("Invalid command verb\n"))
}

/// Parts a request into its verb, the first of its words, and its options,
/// the other words. A request without words has the empty verb.
pub fn request_words(request: &str) -> (r: (String, Vec<String>))
    ensures
        words(request@).len() == 0 ==> r.0@ == Seq::<char>::empty() && r.1@.len() == 0,
        words(request@).len() > 0 ==> r.0@ == words(request@)[0] && texts(r.1@) == words(
            request@,
        ).drop_first(),
{
    let mut all = split_words(request);
    if all.len() == 0 {
        return (String::new(), all);
    }
    let ghost before = texts(all@);
    let verb = all.remove(0);
    assert(texts(all@) =~= before.drop_first());
    assert(before[0] == verb@);
    (verb, all)
}

/// An answer of the console as text: what was done, or what is wrong.
pub open spec fn answer(r: Result<String, String>) -> Result<Seq<char>, Seq<char>> {
    match r {
        Ok(done) => Ok(done@),
        Err(fault) => Err(fault@),
    }
}

/// The text that the console answers a request for help with.
pub open spec fn help_text() -> Seq<char> {
    "Possible Chronos commands:\n"@ + "List active timers:                  list active\n"@
        + "List started timers:                 list startup\n"@
        + "List details of started timers:      list startup expanded\n"@
        + "List all timer config:               list all\n"@
        + "List details of all timer config:    list all expanded\n"@
        + "Purge timer:                         purge <timer-id>\n"@
        + "Add timer:                           add <timer-id>\n"@
        + "Enable startup timer:                startup enable <timer-id>\n"@
        + "Disable startup timer:               startup disable <timer-id>\n"@
}

/// Answers a request for help: the commands of the console, one per line.
pub fn help(_options: Vec<String>) -> (r: Result<String, String>)
    ensures
        answer(r) == Ok::<Seq<char>, Seq<char>>(help_text()),
{
    let mut response = String::new();
    response.append("Possible Chronos commands:\n");
    response.append("List active timers:                  list active\n");
    response.append("List started timers:                 list startup\n");
    response.append("List details of started timers:      list startup expanded\n");
    response.append("List all timer config:               list all\n");
    response.append("List details of all timer config:    list all expanded\n");
    response.append("Purge timer:                         purge <timer-id>\n");
    response.append("Add timer:                           add <timer-id>\n");
    response.append("Enable startup timer:                startup enable <timer-id>\n");
    response.append("Disable startup timer:               startup disable <timer-id>\n");
    assert(response@ =~= help_text());
    Ok(response)
}

/// Answers a request for the version.
pub fn get_version(_options: Vec<String>) -> (r: Result<String, String>)
    ensures
        answer(r) == Ok::<Seq<char>, Seq<char>>(VERSION@),
{
    Ok(copy_text(VERSION))
}

/// What the console answers a request to purge.
pub open spec fn purge_answer(timers: Seq<TimerView>, options: Seq<Seq<char>>) -> Result<
    Seq<char>,
    Seq<char>,
> {
    if options.len() == 0 {
        Err("Timer ID is missing"@)
    } else if has_id(timers, options[0]) {
        Ok("Timer ("@ + options[0] + ") has been purged\n"@)
    } else {
        Err("Invalid purge request"@)
    }
}

/// Takes out of the registry the timer that the first option names, and
/// answers with what was done.
pub fn purge(registry: &mut Registry, options: Vec<String>) -> (r: Result<String, String>)
    requires
        old(registry).wf(),
    ensures
        final(registry).wf(),
        answer(r) == purge_answer(old(registry)@, texts(options@)),
        final(registry)@ == if options@.len() == 0 {
            old(registry)@
        } else {
            purged(old(registry)@, options@[0]@)
        },
{
    if options.len() == 0 {
        return Err(copy_text("Timer ID is missing"));
    }
    assert(texts(options@)[0] == options@[0]@);
    match registry.purge(options[0].as_str()) {
        Ok(_) => {
            let mut done = copy_text("Timer (");
            done.append(options[0].as_str());
            done.append(") has been purged\n");
            Ok(done)
        },
        Err(_) => Err(copy_text("Invalid purge request")),
    }
}

/// The path of the file of the timer that the first option names:
/// `all_timers/<id>.conf`.
pub fn add_path(options: &Vec<String>) -> (r: Result<String, String>)
    ensures
        match r {
            Ok(path) => options@.len() > 0 && path@ == "all_timers/"@ + options@[0]@ + ".conf"@,
            Err(fault) => options@.len() == 0 && fault@ == "Timer ID is missing\n"@,
        },
{
    if options.len() == 0 {
        return Err(copy_text("Timer ID is missing\n"));
    }
    let mut path = copy_text("all_timers/");
    path.append(options[0].as_str());
    path.append(".conf");
    Ok(path)
}

/// What the console answers a request to add. `timer` is the identifier of
/// the timer that was read, if one was.
pub open spec fn add_answer(
    timers: Seq<TimerView>,
    options: Seq<Seq<char>>,
    timer: Option<Seq<char>>,
) -> Result<Seq<char>, Seq<char>> {
    if options.len() == 0 {
        Err("Timer ID is missing\n"@)
    } else if timer is None {
        Err("Error in timer config, see Chronos log for details"@)
    } else if has_id(timers, timer->0) {
        Err("Timer ("@ + options[0] + ") is already exist\n"@)
    } else {
        Ok("Timer ("@ + options[0] + ") has been added\n"@)
    }
}

/// The identifier of a timer that may be there.
pub open spec fn id_of(timer: Option<Timer>) -> Option<Seq<char>> {
    match timer {
        Some(t) => Some(t@.id),
        None => None,
    }
}

/// Adds to the registry the timer that was read from the file that the
/// first option names, unless a timer with its identifier is active, and
/// answers with what was done. `timer` is `None` where the file gave no
/// timer. The registry changes only where the answer is `Ok`: the timer
/// then stands at its end.
pub fn add(registry: &mut Registry, options: Vec<String>, timer: Option<Timer>) -> (r: Result<
    String,
    String,
>)
    requires
        old(registry).wf(),
        timer matches Some(t) ==> t@.wf(),
    ensures
        final(registry).wf(),
        answer(r) == add_answer(old(registry)@, texts(options@), id_of(timer)),
        final(registry)@ == if r is Ok {
            old(registry)@.push(timer->0@)
        } else {
            old(registry)@
        },
{
    if options.len() == 0 {
        return Err(copy_text("Timer ID is missing\n"));
    }
    assert(texts(options@)[0] == options@[0]@);
    let timer = match timer {
        Some(timer) => timer,
        None => return Err(copy_text("Error in timer config, see Chronos log for details")),
    };
    match registry.find(timer.id.as_str()) {
        Some(_) => {
            let mut fault = copy_text("Timer (");
            fault.append(options[0].as_str());
            fault.append(") is already exist\n");
            Err(fault)
        },
        None => {
            registry.upsert(timer);
            let mut done = copy_text("Timer (");
            done.append(options[0].as_str());
            done.append(") has been added\n");
            Ok(done)
        },
    }
}

/// What a request about the startup timers asks for.
#[derive(Debug)]
pub enum StartupStep {
    /// Link the timer's file into the startup directory: `source` must
    /// exist, `link` must not, and `link` is to point to `target`.
    Enable { id: String, source: String, target: String, link: String },
    /// Remove the timer's link from the startup directory.
    Disable { id: String, link: String },
}

/// What a startup step holds, as mathematical values.
pub ghost enum StartupView {
    Enable { id: Seq<char>, source: Seq<char>, target: Seq<char>, link: Seq<char> },
    Disable { id: Seq<char>, link: Seq<char> },
}

impl View for StartupStep {
    type V = StartupView;

    open spec fn view(&self) -> StartupView {
        match self {
            StartupStep::Enable { id, source, target, link } => StartupView::Enable {
                id: id@,
                source: source@,
                target: target@,
                link: link@,
            },
            StartupStep::Disable { id, link } => StartupView::Disable { id: id@, link: link@ },
        }
    }
}

/// `prefix`, `id` and `.conf`, one after the other.
pub open spec fn conf_in(prefix: Seq<char>, id: Seq<char>) -> Seq<char> {
    prefix + id + ".conf"@
}

fn conf_path(prefix: &str, id: &str) -> (path: String)
    ensures
        path@ == conf_in(prefix@, id@),
{
    let mut path = copy_text(prefix);
    path.append(id);
    path.append(".conf");
    path
}

/// What a request about the startup timers asks for: after `enable` and
/// `disable` comes the identifier of a timer.
pub open spec fn startup_step(options: Seq<Seq<char>>) -> Result<StartupView, Seq<char>> {
    if options.len() < 2 {
        Err("Invalid syntax"@)
    } else if options[0] == "enable"@ {
        Ok(
            StartupView::Enable {
                id: options[1],
                source: conf_in("all_timers/"@, options[1]),
                target: conf_in("../all_timers/"@, options[1]),
                link: conf_in("startup_timers/"@, options[1]),
            },
        )
    } else if options[0] == "disable"@ {
        Ok(StartupView::Disable { id: options[1], link: conf_in("startup_timers/"@, options[1]) })
    } else {
        Err("Invalid enable request\n"@)
    }
}

/// Reads a request about the startup timers.
pub fn startup(options: Vec<String>) -> (r: Result<StartupStep, String>)
    ensures
        match r {
            Ok(step) => startup_step(texts(options@)) == Ok::<StartupView, Seq<char>>(step@),
            Err(fault) => startup_step(texts(options@)) == Err::<StartupView, Seq<char>>(fault@),
        },
{
    if options.len() < 2 {
        return Err(copy_text("Invalid syntax"));
    }
    assert(texts(options@)[0] == options@[0]@);
    assert(texts(options@)[1] == options@[1]@);
    let id = options[1].as_str();
    if same_text(options[0].as_str(), "enable") {
        return Ok(
            StartupStep::Enable {
                id: copy_text(id),
                source: conf_path("all_timers/", id),
                target: conf_path("../all_timers/", id),
                link: conf_path("startup_timers/", id),
            },
        );
    }
    if same_text(options[0].as_str(), "disable") {
        return Ok(
            StartupStep::Disable { id: copy_text(id), link: conf_path("startup_timers/", id) },
        );
    }
    Err(copy_text("Invalid enable request\n"))
}

/// What a request for a list asks for.
#[derive(Debug)]
pub enum ListRequest {
    /// The active timers.
    Active,
    /// The timers of the files of a directory, with their details.
    Expanded { dir: String },
    /// The names of the timer files of a directory.
    Names { dir: String },
}

/// What a list request holds, as mathematical values.
pub ghost enum ListView {
    Active,
    Expanded { dir: Seq<char> },
    Names { dir: Seq<char> },
}

impl View for ListRequest {
    type V = ListView;

    open spec fn view(&self) -> ListView {
        match self {
            ListRequest::Active => ListView::Active,
            ListRequest::Expanded { dir } => ListView::Expanded { dir: dir@ },
            ListRequest::Names { dir } => ListView::Names { dir: dir@ },
        }
    }
}

/// What a request for a list asks for: `active`, or `startup` or `all`,
/// either of which `expanded` may follow.
pub open spec fn list_request(options: Seq<Seq<char>>) -> Result<ListView, Seq<char>> {
    if options.len() == 0 {
        Err(
            "You must specifiy what you want list: active, startup or all. See help for more info"@,
        )
    } else if options[0] == "active"@ {
        Ok(ListView::Active)
    } else if options[0] != "startup"@ && options[0] != "all"@ {
        Err("Specified parameter is invalid: "@ + options[0] + "\n"@)
    } else if options.len() < 2 {
        Ok(ListView::Names { dir: options[0] + "_timers"@ })
    } else if options[1] == "expanded"@ {
        Ok(ListView::Expanded { dir: options[0] + "_timers"@ })
    } else {
        Err("Invalid syntax at '"@ + options[1] + "'\n"@)
    }
}

/// Reads a request for a list.
pub fn list(options: Vec<String>) -> (r: Result<ListRequest, String>)
    ensures
        match r {
            Ok(request) => list_request(texts(options@)) == Ok::<ListView, Seq<char>>(request@),
            Err(fault) => list_request(texts(options@)) == Err::<ListView, Seq<char>>(fault@),
        },
{
    if options.len() == 0 {
        return Err(
            copy_text(
                "You must specifiy what you want list: active, startup or all. See help for more info",
            ),
        );
    }
    assert(texts(options@)[0] == options@[0]@);
    let what = options[0].as_str();
    if same_text(what, "active") {
        return Ok(ListRequest::Active);
    }
    if !same_text(what, "startup") && !same_text(what, "all") {
        let mut fault = copy_text("Specified parameter is invalid: ");
        fault.append(what);
        fault.append("\n");
        return Err(fault);
    }
    let mut dir = copy_text(what);
    dir.append("_timers");
    if options.len() >= 2 {
        assert(texts(options@)[1] == options@[1]@);
        if same_text(options[1].as_str(), "expanded") {
            Ok(ListRequest::Expanded { dir })
        } else {
            let mut fault = copy_text("Invalid syntax at '");
            fault.append(options[1].as_str());
            fault.append("'\n");
            Err(fault)
        }
    } else {
        Ok(ListRequest::Names { dir })
    }
}

/// The answer of the console as it is sent back: `>Done` or `>Error` on
/// a line of its own, then what was done or what is wrong.
pub open spec fn reply_text(r: Result<Seq<char>, Seq<char>>) -> Seq<char> {
    match r {
        Ok(done) => ">Done\n"@ + done,
        Err(fault) => ">Error\n"@ + fault,
    }
}

/// The answer of the console as it is sent back.
pub fn console_reply(r: &Result<String, String>) -> (reply: String)
    ensures
        reply@ == reply_text(answer(*r)),
{
    match r {
        Ok(done) => {
            let mut reply = copy_text(">Done\n");
            reply.append(done.as_str());
            reply
        },
        Err(fault) => {
            let mut reply = copy_text(">Error\n");
            reply.append(fault.as_str());
            reply
        },
    }
}

/// The words that refuse a request that does not start with its length.
pub open spec fn no_length_text() -> Seq<char> {
    "First word must be a number which is the lenght of message\n"@
}

/// What was read of a request so far. A request is the length of a
/// message in bytes, written in decimal digits, a space, and the message.
#[derive(Debug)]
pub struct FrameReader {
    /// The bytes read before the first space.
    pub header: Vec<u8>,
    /// The bytes of the message read so far.
    pub message: Vec<u8>,
    /// The length that the header gave.
    pub length: usize,
    /// Whether the header was read.
    pub in_message: bool,
}

/// What to do after a byte was read.
#[derive(Clone, Copy, Debug, PartialEq, Eq, Structural)]
pub enum FrameStep {
    /// Read on.
    More,
    /// The message is complete.
    Complete,
    /// The header is no number: refuse the request.
    Refused,
}

/// The bytes of a header as characters, one for each byte.
pub open spec fn header_text(header: Seq<u8>) -> Seq<char> {
    Seq::new(header.len(), |i: int| header[i] as char)
}

/// Whether `after` and `step` are what taking `byte` makes of `before`.
pub open spec fn fed(before: FrameReader, byte: u8, after: FrameReader, step: FrameStep) -> bool {
    if before.in_message {
        &&& after.in_message
        &&& after.header@ == before.header@
        &&& after.length == before.length
        &&& after.message@ == before.message@.push(byte)
        &&& step == if after.message@.len() == before.length {
            FrameStep::Complete
        } else {
            FrameStep::More
        }
    } else if byte != 32 {
        &&& !after.in_message
        &&& after.header@ == before.header@.push(byte)
        &&& after.message@ == before.message@
        &&& after.length == before.length
        &&& step == FrameStep::More
    } else {
        &&& after.header@ == before.header@
        &&& after.message@ == before.message@
        &&& match unsigned_of(header_text(before.header@), usize::MAX as nat) {
            Some(n) => after.in_message && after.length == n && step == FrameStep::More,
            None => !after.in_message && after.length == before.length && step
                == FrameStep::Refused,
        }
    }
}

impl FrameReader {
    /// Nothing was read yet.
    pub fn new() -> (reader: FrameReader)
        ensures
            reader.header@.len() == 0,
            reader.message@.len() == 0,
            reader.length == 0,
            !reader.in_message,
    {
        FrameReader { header: Vec::new(), message: Vec::new(), length: 0, in_message: false }
    }

    /// Takes the next byte of the request. Before the first space a byte
    /// belongs to the header. The first space ends the header, which must
    /// be a number that fits the machine's word. After it every byte
    /// belongs to the message, which is complete as soon as it has the
    /// length that the header gave; a length of zero is never reached.
    pub fn feed(&mut self, byte: u8) -> (step: FrameStep)
        ensures
            fed(*old(self), byte, *final(self), step),
    {
        if self.in_message {
            self.message.push(byte);
            if self.message.len() == self.length {
                FrameStep::Complete
            } else {
                FrameStep::More
            }
        } else if byte != 32 {
            self.header.push(byte);
            FrameStep::More
        } else {
            let mut text = String::new();
            let mut i: usize = 0;
            while i < self.header.len()
                invariant
                    i <= self.header.len(),
                    text@ == header_text(self.header@).take(i as int),
                decreases self.header.len() - i,
            {
                text.push(self.header[i] as char);
                assert(header_text(self.header@).take(i + 1) =~= header_text(
                    self.header@,
                ).take(i as int).push(self.header@[i as int] as char));
                i += 1;
            }
            assert(header_text(self.header@).take(self.header.len() as int) =~= header_text(
                self.header@,
            ));
            match parse_unsigned(text.as_str(), usize::MAX as u64) {
                Some(n) => {
                    self.length = n as usize;
                    self.in_message = true;
                    FrameStep::More
                },
                None => FrameStep::Refused,
            }
        }
    }

    /// What was read when the request ended: the message, as far as it
    /// came, or the refusal of a request whose header never ended.
    pub fn finish(self) -> (r: Result<Vec<u8>, String>)
        ensures
            match r {
                Ok(message) => self.in_message && message@ == self.message@,
                Err(fault) => !self.in_message && fault@ == no_length_text(),
            },
    {
        if self.in_message {
            Ok(self.message)
        } else {
            Err(copy_text("First word must be a number which is the lenght of message\n"))
        }
    }
}

} // verus!
