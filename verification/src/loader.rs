//! From the files of the timer directory to timers in the registry.

use crate::clock::LocalClock;
use crate::config::{config_of_text, Config};
use crate::parse::parsed;
use crate::registry::{all_wf, upserted, views, Registry};
use crate::text::{chars_of, ends_with, has_suffix, split, split_on, string_of_range, texts};
use crate::timer::{Timer, TimerView};
use vstd::prelude::*;
use vstd::string::StringExecFns;

verus! {

/// The last of the parts of a path between its `/`.
pub open spec fn base_name(path: Seq<char>) -> Seq<char> {
    split(path, '/').last()
}

/// Whether a path names a timer file: it ends in `.conf`.
pub open spec fn is_conf_path(path: Seq<char>) -> bool {
    ends_with(path, ".conf"@)
}

/// The identifier of the timer in the file of a path: the last part of the
/// path, without the `.conf` at its end if it has one.
pub open spec fn id_of_path(path: Seq<char>) -> Seq<char> {
    let name = base_name(path);
    if ends_with(name, ".conf"@) {
        name.take(name.len() - 5)
    } else {
        name
    }
}

/// Whether a path names a timer file.
pub fn is_conf_file(path: &str) -> (r: bool)
    ensures
        r == is_conf_path(path@),
{
    has_suffix(path, ".conf")
}

/// The identifier of the timer in the file of a path.
pub fn timer_id(path: &str) -> (id: String)
    ensures
        id@ == id_of_path(path@),
{
    let parts = split_on(path, '/');
    let last = parts.len() - 1;
    assert(texts(parts@).last() == parts@[last as int]@);
    let name = chars_of(parts[last].as_str());
    proof {
        reveal_strlit(".conf");
    }
    if has_suffix(parts[last].as_str(), ".conf") {
        let id = string_of_range(&name, 0, name.len() - 5);
        assert(name@.subrange(0, name.len() - 5) =~= name@.take(name.len() - 5));
        id
    } else {
        let id = string_of_range(&name, 0, name.len());
        assert(name@.subrange(0, name.len() as int) =~= name@);
        id
    }
}

/// The path of the file of a timer in the timer directory: `<dir>/<id>.conf`.
pub open spec fn timer_file_of(timer_dir: Seq<char>, id: Seq<char>) -> Seq<char> {
    timer_dir + seq!['/'] + id + ".conf"@
}

/// The path of the file of a timer in the timer directory.
pub fn timer_file(timer_dir: &str, id: &str) -> (path: String)
    ensures
        path@ == timer_file_of(timer_dir@, id@),
{
    let mut path = crate::text::copy_text(timer_dir);
    path.push('/');
    path.append(id);
    path.append(".conf");
    path
}

/// What reading a configuration file gives: the configuration that the
/// text of the file holds, or, where the file could not be read, the words
/// that say so, with the path and the reason.
pub fn read_conf_file(path: &str, content: Result<&str, &str>) -> (r: Result<Config, String>)
    ensures
        match (r, content) {
            (Ok(config), Ok(text)) => config@ == config_of_text(text@),
            (Err(fault), Err(reason)) => fault@ == "Failed to read config '"@ + path@ + "': "@
                + reason@,
            _ => false,
        },
{
    match content {
        Ok(text) => Ok(Config::parse(text)),
        Err(reason) => {
            let mut fault = crate::text::copy_text("Failed to read config '");
            fault.append(path);
            fault.append("': ");
            fault.append(reason);
            Err(fault)
        },
    }
}

/// Reads the timer of a file from the configuration that the file holds,
/// under the identifier that the path gives, scheduled at the instant of
/// the clock. `None` where the configuration gives no timer.
pub fn process_timer_file(file_path: &str, timer_info: Config, clock: &LocalClock) -> (r: Option<
    Timer,
>)
    requires
        clock.wf(),
    ensures
        match r {
            Some(timer) => parsed(timer_info@.insert("id"@, id_of_path(file_path@)), *clock)
                == Ok::<TimerView, crate::parse::ParseError>(timer@) && timer@.wf(),
            None => parsed(timer_info@.insert("id"@, id_of_path(file_path@)), *clock) is Err,
        },
{
    let id = timer_id(file_path);
    let mut config = timer_info;
    config.insert("id", id.as_str());
    match Timer::from_config(&config, clock) {
        Ok(timer) => Some(timer),
        Err(_) => None,
    }
}

/// The configurations of the timer files among the given files, each with
/// the identifier that its path gives under the key `id`. A file counts
/// where its path ends in `.conf` and it could be read.
pub open spec fn conf_entries(files: Seq<(Seq<char>, Option<Map<Seq<char>, Seq<char>>>)>) -> Seq<
    Map<Seq<char>, Seq<char>>,
>
    decreases files.len(),
{
    if files.len() == 0 {
        Seq::empty()
    } else {
        let before = conf_entries(files.drop_last());
        let (path, content) = files.last();
        if is_conf_path(path) && content is Some {
            before.push(content->0.insert("id"@, id_of_path(path)))
        } else {
            before
        }
    }
}

/// What a list of files holds, as mathematical values.
pub open spec fn file_views(files: Seq<(String, Option<Config>)>) -> Seq<
    (Seq<char>, Option<Map<Seq<char>, Seq<char>>>),
> {
    Seq::new(
        files.len(),
        |i: int|
            (
                files[i].0@,
                match files[i].1 {
                    Some(config) => Some(config@),
                    None => None,
                },
            ),
    )
}

/// What a list of configurations holds, as mathematical values.
pub open spec fn config_views(configs: Seq<Config>) -> Seq<Map<Seq<char>, Seq<char>>> {
    Seq::new(configs.len(), |i: int| configs[i]@)
}

/// Makes the files of the timer directory into configurations. Each entry
/// holds the path of a file and the configuration read from it, or `None`
/// where it could not be read. Files whose path does not end in `.conf`
/// are passed over, and so are those that could not be read; the others
/// give their configuration, with the identifier that the path gives.
pub fn read_conf_files(files: Vec<(String, Option<Config>)>) -> (configs: Vec<Config>)
    ensures
        config_views(configs@) == conf_entries(file_views(files@)),
{
    let mut configs: Vec<Config> = Vec::new();
    let ghost input = file_views(files@);
    proof {
        assert(input.take(0) =~= Seq::empty());
        assert(config_views(configs@) =~= Seq::empty());
    }
    for file in it: files
        invariant
            it.seq() == files@,
            input == file_views(files@),
            config_views(configs@) == conf_entries(input.take(it.index())),
    {
        let (path, content) = file;
        proof {
            let next = input.take(it.index() + 1);
            assert(next.drop_last() =~= input.take(it.index()));
            assert(next.last() == input[it.index()]);
        }
        if is_conf_file(path.as_str()) {
            match content {
                Some(config) => {
                    let mut config = config;
                    let id = timer_id(path.as_str());
                    let ghost before = config_views(configs@);
                    config.insert("id", id.as_str());
                    configs.push(config);
                    assert(config_views(configs@) =~= before.push(config@));
                },
                None => {},
            }
        }
    }
    assert(input.take(input.len() as int) =~= input);
    configs
}

/// The timers that a list of configurations gives, in their order; a
/// configuration that gives no timer is passed over.
pub open spec fn parsed_all(configs: Seq<Map<Seq<char>, Seq<char>>>, clock: LocalClock) -> Seq<
    TimerView,
>
    decreases configs.len(),
{
    if configs.len() == 0 {
        Seq::empty()
    } else {
        let before = parsed_all(configs.drop_last(), clock);
        match parsed(configs.last(), clock) {
            Ok(timer) => before.push(timer),
            Err(_) => before,
        }
    }
}

/// Reads the timers of a list of configurations, each scheduled at the
/// instant of the clock; a configuration that gives no timer is passed over.
pub fn read_startup_timer(configs: &Vec<Config>, clock: &LocalClock) -> (timers: Vec<Timer>)
    requires
        clock.wf(),
    ensures
        views(timers@) == parsed_all(config_views(configs@), *clock),
        all_wf(views(timers@)),
{
    let mut timers: Vec<Timer> = Vec::new();
    let ghost input = config_views(configs@);
    let mut i: usize = 0;
    proof {
        assert(input.take(0) =~= Seq::empty());
        assert(views(timers@) =~= Seq::<TimerView>::empty());
    }
    while i < configs.len()
        invariant
            i <= configs.len(),
            clock.wf(),
            input == config_views(configs@),
            views(timers@) == parsed_all(input.take(i as int), *clock),
            all_wf(views(timers@)),
        decreases configs.len() - i,
    {
        proof {
            let next = input.take(i + 1);
            assert(next.drop_last() =~= input.take(i as int));
            assert(next.last() == configs@[i as int]@);
        }
        match Timer::from_config(&configs[i], clock) {
            Ok(timer) => {
                let ghost before = views(timers@);
                timers.push(timer);
                assert(views(timers@) =~= before.push(timer@));
            },
            Err(_) => {},
        }
        i += 1;
    }
    assert(input.take(input.len() as int) =~= input);
    timers
}

/// The list after each of the timers was put into it, one after the other.
pub open spec fn loaded(registry: Seq<TimerView>, timers: Seq<TimerView>) -> Seq<TimerView>
    decreases timers.len(),
{
    if timers.len() == 0 {
        registry
    } else {
        upserted(loaded(registry, timers.drop_last()), timers.last())
    }
}

/// Puts the timers read at startup into the registry, one after the other:
/// each at the end, or in the place of a timer with the same identifier.
/// It never fails.
pub fn start_timer_refresh(registry: &mut Registry, timers: Vec<Timer>) -> (r: Result<(), String>)
    requires
        old(registry).wf(),
        all_wf(views(timers@)),
    ensures
        r is Ok,
        final(registry)@ == loaded(old(registry)@, views(timers@)),
        final(registry).wf(),
{
    let ghost input = views(timers@);
    let ghost start = registry@;
    proof {
        assert(input.take(0) =~= Seq::<TimerView>::empty());
    }
    for timer in it: timers
        invariant
            it.seq() == timers@,
            input == views(timers@),
            all_wf(input),
            registry.wf(),
            registry@ == loaded(start, input.take(it.index())),
    {
        proof {
            let next = input.take(it.index() + 1);
            assert(next.drop_last() =~= input.take(it.index()));
            assert(next.last() == input[it.index()]);
            assert(input[it.index()].wf());
        }
        registry.upsert(timer);
    }
    assert(input.take(input.len() as int) =~= input);
    Ok(())
}

} // verus!
