//! Under which name and path a file is written, and which record a broken download leaves.
use crate::codec::{percent_text, percent_text_of_plain, text};
use crate::config::Config;
use crate::names::{join_path, json_fix_name, record_name_ignores_dots, tail_of_url, url_tail};
use crate::process::Process;
use crate::task::{DownloadPlan, Task, TaskError};
use crate::text::{after_last_at, before_first_at, without};
use vstd::prelude::*;

verus! {

/// The name in a link is what stands behind its last slash, up to a query.
pub proof fn link_ends_in_its_name(url: &str, r: String, base: Seq<char>, name: Seq<char>, query: Seq<char>)
    requires
        call_ensures(tail_of_url, (url,), r),
        url@ == base.push('/') + name + query,
        !name.contains('/'),
        !name.contains('?'),
        !query.contains('/'),
        query.len() == 0 || query[0] == '?',
    ensures
        r@ == name,
{
    tail_of_link(base, name, query);
}

/// A link without a slash is all name, up to a query.
pub proof fn bare_link_is_its_name(url: &str, r: String, name: Seq<char>, query: Seq<char>)
    requires
        call_ensures(tail_of_url, (url,), r),
        url@ == name + query,
        !name.contains('/'),
        !name.contains('?'),
        !query.contains('/'),
        query.len() == 0 || query[0] == '?',
    ensures
        r@ == name,
{
    let s = name + query;
    no_slash(name, query);
    after_last_at(s, '/', 0);
    assert(s.skip(0) =~= s);
    name_before_query(name, query);
}

proof fn no_slash(name: Seq<char>, query: Seq<char>)
    requires
        !name.contains('/'),
        !query.contains('/'),
    ensures
        forall|i: int| 0 <= i < (name + query).len() ==> (name + query)[i] != '/',
{
    assert forall|i: int| 0 <= i < (name + query).len() implies (name + query)[i] != '/' by {
        if i < name.len() {
            assert(name.contains(name[i]));
        } else {
            assert(query.contains(query[i - name.len()]));
        }
    }
}

proof fn name_before_query(name: Seq<char>, query: Seq<char>)
    requires
        !name.contains('?'),
        query.len() == 0 || query[0] == '?',
    ensures
        crate::text::before_first(name + query, '?') == name,
{
    let s = name + query;
    assert forall|i: int| 0 <= i < name.len() implies s[i] != '?' by {
        assert(name.contains(name[i]));
    }
    before_first_at(s, '?', name.len() as int);
    assert(s.take(name.len() as int) =~= name);
}

proof fn tail_of_link(base: Seq<char>, name: Seq<char>, query: Seq<char>)
    requires
        !name.contains('/'),
        !name.contains('?'),
        !query.contains('/'),
        query.len() == 0 || query[0] == '?',
    ensures
        url_tail(base.push('/') + name + query) == name,
{
    let s = base.push('/') + name + query;
    let k = base.len() as int + 1;
    no_slash(name, query);
    assert(s.skip(k) =~= name + query);
    assert forall|j: int| k <= j < s.len() implies s[j] != '/' by {
        assert(s[j] == (name + query)[j - k]);
    }
    after_last_at(s, '/', k);
    name_before_query(name, query);
}

/// A name that is set is the name of the file, whatever the link is.
pub proof fn set_name_comes_first(task: Task, r: Result<String, TaskError>)
    requires
        call_ensures(Task::filename, (&task,), r),
        task.file_name is Some,
    ensures
        r matches Ok(name) && text(task.file_name) == Some(name@),
{
}

/// Without a name that is set, the name of the file is the one in the link.
pub proof fn link_gives_the_name(
    task: Task,
    r: Result<String, TaskError>,
    base: Seq<char>,
    name: Seq<char>,
    query: Seq<char>,
)
    requires
        call_ensures(Task::filename, (&task,), r),
        task.file_name is None,
        task.url@ == base.push('/') + name + query,
        !name.contains('/'),
        !name.contains('?'),
        !query.contains('/'),
        query.len() == 0 || query[0] == '?',
    ensures
        match r {
            Ok(found) => percent_text(name) == Some(found@),
            Err(error) => error == TaskError::Name && percent_text(name) is None,
        },
        !name.contains('%') ==> (r matches Ok(found) && found@ == name),
{
    tail_of_link(base, name, query);
    if !name.contains('%') {
        percent_text_of_plain(name);
    }
}

/// Where no output is given, the path is the name of the file.
pub proof fn path_without_output(task: Task, is_dir: bool, r: Result<String, TaskError>, n: Result<String, TaskError>)
    requires
        call_ensures(Task::save_path, (&task, is_dir), r),
        call_ensures(Task::filename, (&task,), n),
        task.output is None,
    ensures
        match n {
            Ok(name) => r matches Ok(path) && path@ == name@,
            Err(error) => r == Err::<String, TaskError>(error),
        },
{
}

/// Where an output is given that is no directory, the path is the output, whatever the file is
/// called.
pub proof fn path_of_an_output(task: Task, r: Result<String, TaskError>)
    requires
        call_ensures(Task::save_path, (&task, false), r),
        task.output is Some,
    ensures
        r matches Ok(path) && text(task.output) == Some(path@),
{
}

/// Where the output is a directory, the path is that of the file in it: the directory, one slash,
/// and the name.
pub proof fn path_in_a_directory(
    task: Task,
    r: Result<String, TaskError>,
    n: Result<String, TaskError>,
    dir: Seq<char>,
)
    requires
        call_ensures(Task::save_path, (&task, true), r),
        call_ensures(Task::filename, (&task,), n),
        text(task.output) == Some(dir),
    ensures
        match n {
            Ok(name) => r matches Ok(path) && {
                &&& name@.len() > 0 && name@[0] == '/' ==> path@ == name@
                &&& (name@.len() == 0 || name@[0] != '/') && dir.len() > 0 && dir.last() != '/' ==> path@ == dir
                    + seq!['/'] + name@
                &&& (name@.len() == 0 || name@[0] != '/') && (dir.len() == 0 || dir.last() == '/') ==> path@ == dir
                    + name@
            },
            Err(error) => r == Err::<String, TaskError>(error),
        },
{
    if let Ok(name) = n {
        assert(dir.push('/') + name@ =~= dir + seq!['/'] + name@);
    }
}

/// A path in a directory starts with the directory and ends in the name, with a slash between.
pub proof fn joined_path(dir: &str, name: &str, r: String)
    requires
        call_ensures(join_path, (dir, name), r),
        name@.len() > 0 ==> name@[0] != '/',
        dir@.len() > 0,
    ensures
        dir@.is_prefix_of(r@),
        r@.skip(r@.len() - name@.len()) == name@,
        r@[r@.len() - name@.len() - 1] == '/',
        r@.len() <= dir@.len() + 1 + name@.len(),
{
    assert(r@.skip(r@.len() - name@.len()) =~= name@);
}

/// The record of a name is called as the name without its dots, and `.json`: a name without dots
/// stays as it is, and a dot anywhere in it changes nothing.
pub proof fn record_of_a_name(a: String, b: String, ra: String, rb: String, before: Seq<char>, behind: Seq<char>)
    requires
        call_ensures(json_fix_name, (a,), ra),
        call_ensures(json_fix_name, (b,), rb),
        a@ == before + behind,
        b@ == before.push('.') + behind,
    ensures
        !a@.contains('.') ==> ra@ == a@ + ".json"@,
        rb@ == ra@,
{
    record_name_ignores_dots(before, behind);
    if !a@.contains('.') {
        nothing_to_drop(a@);
    }
}

proof fn nothing_to_drop(s: Seq<char>)
    requires
        !s.contains('.'),
    ensures
        without(s, '.') == s,
    decreases s.len(),
{
    reveal(Seq::filter);
    if s.len() > 0 {
        assert(s.contains(s.last()));
        assert(!s.drop_last().contains('.')) by {
            if s.drop_last().contains('.') {
                let i = choose|i: int| 0 <= i < s.drop_last().len() && s.drop_last()[i] == '.';
                assert(s[i] == '.');
            }
        }
        nothing_to_drop(s.drop_last());
        assert(s.drop_last().push(s.last()) =~= s);
    }
}

/// The record of a download is that of the name of its file; it cannot be named exactly where the
/// file cannot.
pub proof fn record_goes_by_the_name(
    task: Task,
    r: Result<String, TaskError>,
    n: Result<String, TaskError>,
    record: String,
)
    requires
        call_ensures(Task::record_name, (&task,), r),
        call_ensures(Task::filename, (&task,), n),
        n matches Ok(name) ==> call_ensures(json_fix_name, (name,), record),
    ensures
        match n {
            Ok(_) => r matches Ok(found) && found@ == record@,
            Err(error) => r == Err::<String, TaskError>(error),
        },
{
}

/// A connection writes to the path of its download, asks for its link in its way, and starts without
/// a refusal, of which it bears fifteen less one.
pub proof fn connection_serves_its_download(
    task: Task,
    is_dir: bool,
    r: Result<Process, TaskError>,
    p: Result<String, TaskError>,
)
    requires
        call_ensures(Task::create_process, (&task, is_dir), r),
        call_ensures(Task::save_path, (&task, is_dir), p),
    ensures
        match p {
            Ok(path) => r matches Ok(process) && {
                &&& process.file_path@ == path@
                &&& process.url@ == task.url@
                &&& process.mode == task.mode
                &&& process.retry == 0
                &&& process.max_retry == 15
            },
            Err(error) => r == Err::<Process, TaskError>(error),
        },
{
}

/// The output of the options is the name of a download, whatever a server or a link says; its
/// percent escapes are replaced.
pub proof fn output_names_the_file(config: Config, ranges: bool, output: Seq<char>)
    requires
        text(config.output) == Some(output),
    ensures
        forall|t: &mut Task, r: Result<DownloadPlan, TaskError>| #[trigger]
            call_ensures(Task::download, (t, &config, ranges), r) ==> {
                &&& r is Ok <==> percent_text(output) is Some
                &&& r matches Ok(plan) ==> percent_text(output) == Some(plan.name@)
                &&& !output.contains('%') ==> (r matches Ok(plan) && plan.name@ == output)
            },
{
    if !output.contains('%') {
        percent_text_of_plain(output);
    }
}

/// Without an output, the name that a server has given is the name of a download; its percent
/// escapes are replaced.
pub proof fn server_names_the_file(config: Config, ranges: bool, given: Seq<char>)
    requires
        config.output is None,
    ensures
        forall|t: &mut Task, r: Result<DownloadPlan, TaskError>| #[trigger]
            call_ensures(Task::download, (t, &config, ranges), r) && text(t.file_name) == Some(given) ==> {
                &&& r is Ok <==> percent_text(given) is Some
                &&& r matches Ok(plan) ==> percent_text(given) == Some(plan.name@)
                &&& !given.contains('%') ==> (r matches Ok(plan) && plan.name@ == given)
            },
{
    if !given.contains('%') {
        percent_text_of_plain(given);
    }
}

/// Without either, the link names the file.
pub proof fn link_names_the_file(
    config: Config,
    ranges: bool,
    base: Seq<char>,
    name: Seq<char>,
    query: Seq<char>,
)
    requires
        config.output is None,
        !name.contains('/'),
        !name.contains('?'),
        !query.contains('/'),
        query.len() == 0 || query[0] == '?',
    ensures
        forall|t: &mut Task, r: Result<DownloadPlan, TaskError>| #[trigger]
            call_ensures(Task::download, (t, &config, ranges), r) && t.file_name is None && t.url@ == base.push('/')
                + name + query ==> {
                &&& r is Ok <==> percent_text(name) is Some
                &&& r matches Ok(plan) ==> percent_text(name) == Some(plan.name@)
                &&& !name.contains('%') ==> (r matches Ok(plan) && plan.name@ == name)
            },
{
    tail_of_link(base, name, query);
    if !name.contains('%') {
        percent_text_of_plain(name);
    }
}

/// Once a download is settled, the file is called as the plan says, and nothing but its name has
/// changed.
pub proof fn settled_name_stays(config: Config, ranges: bool)
    ensures
        forall|t: &mut Task, r: Result<DownloadPlan, TaskError>, n: Result<String, TaskError>|
            #[trigger] call_ensures(Task::download, (t, &config, ranges), r) && r is Ok && #[trigger] call_ensures(
                Task::filename,
                (&*final(t),),
                n,
            ) ==> (n matches Ok(name) && name@ == r->Ok_0.name@),
        forall|t: &mut Task, r: Result<DownloadPlan, TaskError>| #[trigger]
            call_ensures(Task::download, (t, &config, ranges), r) ==> {
                &&& final(t).url == t.url
                &&& final(t).output == t.output
                &&& final(t).thread_count == t.thread_count
                &&& final(t).retry == t.retry
                &&& final(t).mode == t.mode
                &&& final(t).delete_stat == t.delete_stat
                &&& final(t).config_retry == t.config_retry
                &&& final(t).extend == t.extend
                &&& r matches Err(error) ==> error == TaskError::Name
            },
{
}

/// The download that the options ask for has their link, output, connections and retries, asks with
/// POST exactly where they say so, takes up a record unless they forbid it, and has no name yet.
pub proof fn options_make_the_download(config: Config, r: Task)
    requires
        call_ensures(Task::create_task, (&config,), r),
    ensures
        r.url@ == config.url@,
        text(r.output) == text(config.output),
        r.thread_count == config.thread_size,
        r.retry == config.retry,
        config.post <==> r.mode == crate::task::HttpMode::POST,
        !config.post <==> r.mode == crate::task::HttpMode::GET,
        r.delete_stat == config.delete_stat,
        r.config_retry,
        r.file_name is None,
        !r.extend.seiki_enable,
        r.extend.seiki_server_list@ == Map::<String, (u64, u64)>::empty(),
{
}

/// The next link of a list starts without what was said of the one before: no output, no name, and
/// five tries. The rest goes on.
pub proof fn next_link_starts_afresh(url: String)
    ensures
        forall|t: &mut Task, r: ()| #[trigger]
            call_ensures(Task::reset_url, (t, url), r) ==> {
                &&& final(t).url@ == url@
                &&& final(t).output is None
                &&& final(t).file_name is None
                &&& final(t).retry == 5
                &&& final(t).thread_count == t.thread_count
                &&& final(t).mode == t.mode
                &&& final(t).delete_stat == t.delete_stat
                &&& final(t).config_retry == t.config_retry
                &&& final(t).extend == t.extend
            },
{
}

} // verus!
