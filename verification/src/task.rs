//! One download: where it comes from, where it goes, and how its connections share it.
use crate::board::{
    assigned, can_split, is_farthest, is_longest, is_slowest, lags, resumed, Board, Lag, ResumeError, Sjson,
};
use crate::codec::{
    first_group, lossy_text, named_file, percent_decode, percent_text, text, utf8_lossy, utf8_text,
    FILENAME_PATTERN,
};
use crate::config::{Config, Fields, HeaderError};
use crate::headers::{
    appended, fields, first_value, headers_append, headers_clone, headers_contain, headers_get, is_name,
    parse_value, plain_name, plain_value, room, value_text, visible_text,
};
use crate::names::{join_path, joined, json_fix_name, tail_of_url, url_tail};
use crate::number::{decimal, parse_u64, push_decimal, u64_value};
use crate::process::Process;
use crate::ranges::{block_end, block_start};
use crate::single::OneDownload;
use crate::table::parsed_table;
use crate::text::without;
use http::header::{HeaderMap, HeaderValue};
use std::collections::HashMap;
use vstd::prelude::*;
use vstd::utf8::encode_utf8;

verus! {

/// How often a download of a list is tried again.
pub const LIST_RETRY: u8 = 5;

/// How many refused requests end a connection.
pub const MAX_RETRY: u8 = 15;

/// How a file is asked for.
#[derive(Clone, Copy, Debug, PartialEq, Eq, Structural)]
pub enum HttpMode {
    GET,
    POST,
}

/// What a server that offers further servers sends: for each of them, two numbers.
#[derive(Clone, Debug)]
pub struct Seiki {
    pub server: HashMap<String, (u64, u64)>,
}

/// What a server offers beyond HTTP.
#[derive(Clone, Debug)]
pub struct Extend {
    /// Whether it offers further servers.
    pub seiki_enable: bool,
    /// The further servers.
    pub seiki_server_list: HashMap<String, (u64, u64)>,
}

impl Extend {
    /// A server that offers nothing beyond HTTP.
    pub fn new() -> (r: Extend)
        ensures
            !r.seiki_enable,
            r.seiki_server_list@ == Map::<String, (u64, u64)>::empty(),
    {
        Extend { seiki_enable: false, seiki_server_list: HashMap::new() }
    }
}

impl Default for Extend {
    fn default() -> (r: Extend)
        ensures
            !r.seiki_enable,
            r.seiki_server_list@ == Map::<String, (u64, u64)>::empty(),
    {
        Extend::new()
    }
}

/// How a download ends.
#[derive(Clone, Copy, Debug, PartialEq, Eq, Structural)]
pub enum DownloadState {
    /// It is over, with so many bytes.
    Over(u64),
}

/// One download.
#[derive(Clone, Debug)]
pub struct Task {
    pub url: String,
    pub output: Option<String>,
    pub thread_count: u32,
    pub retry: u8,
    pub mode: HttpMode,
    pub file_name: Option<String>,
    pub delete_stat: bool,
    pub config_retry: bool,
    pub extend: Extend,
}

/// Why a download fails.
#[derive(Clone, Copy, Debug, PartialEq, Eq, Structural)]
pub enum TaskError {
    /// The percent escapes of a name are not UTF-8.
    Name,
    /// A header field holds characters that are not visible.
    Field,
    /// The length is no number.
    Length,
    /// Several connections are forced, but the size is not known.
    NoSizeForced,
    /// Several connections are in order, but the size is not known.
    NoSize,
    /// The record of a broken download cannot be taken up.
    Resume(ResumeError),
}

/// What comes of a server's reply to the first request.
#[derive(Debug)]
pub enum LocationStep {
    /// The file is there: whether ranges of it can be asked for, and its length.
    Found { ranges: bool, length: Option<u64> },
    /// The file is elsewhere, and is asked for there; before that, the further servers are read
    /// from the reply, where `servers` says so.
    Moved { servers: bool },
    /// The server refuses, and is asked again; `tries` says how often after that.
    Again { message: String, tries: u8 },
    /// The server refuses, once too often.
    GiveUp { message: String },
}

/// How a download is done once its file is found.
#[derive(Debug)]
pub struct DownloadPlan {
    /// The name of the file.
    pub name: String,
    /// Whether several connections share it.
    pub threads: bool,
}

/// How the connections of a download are used again.
#[derive(Clone, Copy, Debug, PartialEq, Eq, Structural)]
pub struct ReusePlan {
    /// How far the slowest connection has to go to its last byte.
    pub one_bytes: u64,
    /// Whether a connection that is done takes over part of the range of another.
    pub reuse: bool,
    /// What is added to an id for the id of the connection that takes over part of its range.
    pub basic_id: u64,
}

/// What comes of a connection's report.
#[derive(Clone, Copy, Debug, PartialEq, Eq, Structural)]
pub enum Reuse {
    /// No connection is left.
    Over,
    /// Each of those left has come to its last byte.
    Wait,
    /// This one has the farthest to go, and its range can be split.
    Slowest(Lag),
    /// This one has the farthest to go, but its range cannot be split now, as where the connection
    /// that took over part of it before is still at work.
    Held(Lag),
}

/// The name of the file: the one that is set, or the one that the link gives.
pub open spec fn name_of(file_name: Option<Seq<char>>, url: Seq<char>) -> Option<Seq<char>> {
    match file_name {
        Some(name) => Some(name),
        None => percent_text(url_tail(url)),
    }
}

/// The path to write: `output`, or, where that is a directory, the file in it; without `output`,
/// the name of the file.
pub open spec fn path_of(output: Option<Seq<char>>, is_dir: bool, name: Option<Seq<char>>) -> Option<Seq<char>> {
    match output {
        Some(out) => if is_dir {
            match name {
                Some(name) => Some(joined(out, name)),
                None => None,
            }
        } else {
            Some(out)
        },
        None => name,
    }
}

/// A server says that ranges can be asked for.
pub open spec fn offers_ranges(f: Fields) -> bool {
    f.dom().contains("content-range"@) || f.dom().contains("accept-ranges"@)
}

/// The name that a `Content-Disposition` of this text gives the file, or else the one that is set.
pub open spec fn name_in(shown: Seq<char>, set: Option<Seq<char>>) -> Option<Seq<char>> {
    match named_file(shown) {
        Some(name) => Some(name),
        None => set,
    }
}

/// The name that a server gives the file, or else the one that is set.
pub open spec fn offered_name(f: Fields, set: Option<Seq<char>>) -> Option<Seq<char>> {
    match first_value(f, "content-disposition"@) {
        Some(value) => name_in(lossy_text(value), set),
        None => set,
    }
}

/// `name` is what comes of a `Content-Disposition` that is UTF-8.
pub open spec fn is_plainly_offered(f: Fields, set: Option<Seq<char>>, name: Option<Seq<char>>) -> bool {
    first_value(f, "content-disposition"@) matches Some(value) ==> (utf8_text(value) matches Some(shown) ==> name
        == name_in(shown, set))
}

/// The length that a server gives the file.
pub open spec fn offered_length(f: Fields) -> Result<Option<u64>, TaskError> {
    match first_value(f, "content-length"@) {
        Some(value) => match visible_text(value) {
            Some(digits) => match u64_value(digits) {
                Some(n) => Ok(Some(n)),
                None => Err(TaskError::Length),
            },
            None => Err(TaskError::Field),
        },
        None => Ok(None),
    }
}

/// `after` is `before` with what the fields of a reply say of the file.
pub open spec fn has_read(before: Task, f: Fields, after: Task) -> bool {
    &&& after.url == before.url
    &&& same_settings(before, after)
    &&& text(after.file_name) == offered_name(f, text(before.file_name))
    &&& is_plainly_offered(f, text(before.file_name), text(after.file_name))
    &&& after.extend.seiki_enable == (before.extend.seiki_enable || f.dom().contains("seiki-enable"@))
    &&& after.extend.seiki_server_list == before.extend.seiki_server_list
}

/// The settings of a download that no reply changes are the same in both.
pub open spec fn same_settings(before: Task, after: Task) -> bool {
    &&& after.output == before.output
    &&& after.thread_count == before.thread_count
    &&& after.retry == before.retry
    &&& after.mode == before.mode
    &&& after.delete_stat == before.delete_stat
    &&& after.config_retry == before.config_retry
}

/// What a reply of this status, which is no success, is reported as; `None` for a redirect.
pub open spec fn complaint(status: u16, f: Fields) -> Option<Seq<char>> {
    if status == 302 {
        if f.dom().contains("location"@) {
            None
        } else {
            Some("url code is 302, but not found Location!"@)
        }
    } else if status == 403 {
        Some("url code is 403!, please check your header!"@)
    } else if status == 404 {
        Some("url code is 404!, please check your url!"@)
    } else if status == 429 {
        Some("url code is 429!, please reduce requests!"@)
    } else if status == 500 {
        Some("url code is 500?"@)
    } else {
        Some("url code is "@ + decimal(status as nat))
    }
}

/// How often a server is asked again after it has refused once more; `None` where it is not.
pub open spec fn tries_left(config_retry: bool, tries: u8) -> Option<u8> {
    if !config_retry || tries == 0 {
        None
    } else {
        Some((tries - 1) as u8)
    }
}

/// How often a server is asked again after it has refused `n` times more.
pub open spec fn tries_after(config_retry: bool, tries: u8, n: nat) -> Option<u8>
    decreases n,
{
    if n == 0 {
        Some(tries)
    } else {
        match tries_after(config_retry, tries, (n - 1) as nat) {
            Some(left) => tries_left(config_retry, left),
            None => None,
        }
    }
}

/// A server that refuses each time is asked exactly as often as `tries` says, and once more.
pub proof fn refusals_end(config_retry: bool, tries: u8, n: nat)
    ensures
        tries_after(config_retry, tries, n) is Some <==> n == 0 || config_retry && n <= tries,
        n <= tries && config_retry ==> tries_after(config_retry, tries, n) == Some((tries - n) as u8),
    decreases n,
{
    if n > 0 {
        refusals_end(config_retry, tries, (n - 1) as nat);
    }
}

/// Several connections share a download.
pub open spec fn uses_threads(ranges: bool, config: Config, seiki: bool) -> bool {
    config.force_thread || (!config.one_download && (ranges || seiki))
}

/// The record of a broken download, which `saved` says is there, is taken up.
pub open spec fn is_taken_up(task: Task, saved: bool) -> bool {
    saved && !task.delete_stat
}

/// The tables of positions and ends after a file was cut for `count` connections, or why it cannot
/// be cut.
pub open spec fn cut(
    count: u32,
    file_size: Option<u64>,
    force_thread: bool,
    positions: Map<u64, u64>,
    ends: Map<u64, u64>,
) -> Result<(Map<u64, u64>, Map<u64, u64>), TaskError> {
    match file_size {
        Some(size) => Ok(
            (
                assigned(positions, count as nat, |i: int| block_start(size as int, count as int, i)),
                assigned(ends, count as nat, |i: int| block_end(size as int, count as int, i)),
            ),
        ),
        None => Err(
            if force_thread {
                TaskError::NoSizeForced
            } else {
                TaskError::NoSize
            },
        ),
    }
}

/// The tables with which several connections start, where `record` gives the tables of a record,
/// if one is there: those of the record, where it is taken up and can be; else those of the cut
/// file.
pub open spec fn begun(
    task: Task,
    record: Option<(Option<Map<u64, u64>>, Option<Map<u64, u64>>)>,
    file_size: Option<u64>,
    force_thread: bool,
    positions: Map<u64, u64>,
    ends: Map<u64, u64>,
) -> Result<(Map<u64, u64>, Map<u64, u64>), TaskError> {
    let fresh = cut(task.thread_count, file_size, force_thread, positions, ends);
    match record {
        Some((ato, eto)) => match resumed(ato, eto, positions, ends) {
            Ok(tables) => if is_taken_up(task, true) {
                Ok(tables)
            } else {
                fresh
            },
            Err(_) => fresh,
        },
        None => fresh,
    }
}

/// Where resuming is forbidden, a record changes nothing: the connections start as without it, on
/// the file cut afresh, or fail as without it.
pub proof fn forbidden_record_changes_nothing(
    task: Task,
    record: Option<(Option<Map<u64, u64>>, Option<Map<u64, u64>>)>,
    file_size: Option<u64>,
    force_thread: bool,
    positions: Map<u64, u64>,
    ends: Map<u64, u64>,
)
    requires
        task.delete_stat,
    ensures
        !is_taken_up(task, record is Some),
        begun(task, record, file_size, force_thread, positions, ends) == begun(
            task,
            None,
            file_size,
            force_thread,
            positions,
            ends,
        ),
        begun(task, record, file_size, force_thread, positions, ends) == cut(
            task.thread_count,
            file_size,
            force_thread,
            positions,
            ends,
        ),
{
}

/// Where one connection is asked for and several are not forced, several never share a download.
pub proof fn single_connection_is_kept(ranges: bool, config: Config, seiki: bool)
    requires
        config.one_download,
        !config.force_thread,
    ensures
        !uses_threads(ranges, config, seiki),
{
}

/// The name that is set before percent escapes are replaced.
pub open spec fn chosen_name(output: Option<Seq<char>>, file_name: Option<Seq<char>>) -> Option<Seq<char>> {
    match output {
        Some(name) => Some(name),
        None => file_name,
    }
}

impl Task {
    /// The download that the options ask for.
    pub fn create_task(config: &Config) -> (r: Task)
        ensures
            r.url@ == config.url@,
            text(r.output) == text(config.output),
            r.thread_count == config.thread_size,
            r.retry == config.retry,
            r.mode == (if config.post {
                HttpMode::POST
            } else {
                HttpMode::GET
            }),
            r.file_name is None,
            r.delete_stat == config.delete_stat,
            r.config_retry,
            !r.extend.seiki_enable,
            r.extend.seiki_server_list@ == Map::<String, (u64, u64)>::empty(),
    {
        let mode: HttpMode = if config.post {
            HttpMode::POST
        } else {
            HttpMode::GET
        };
        let output: Option<String> = match &config.output {
            Some(output) => Some(output.clone()),
            None => None,
        };
        Task {
            url: config.url.clone(),
            output,
            thread_count: config.thread_size,
            retry: config.retry,
            mode,
            file_name: None,
            delete_stat: config.delete_stat,
            config_retry: true,
            extend: Extend::new(),
        }
    }

    /// Turns to the next link of a list. What the last server offered beyond HTTP stays.
    pub fn reset_url(&mut self, url: String)
        ensures
            final(self).url == url,
            final(self).output is None,
            final(self).retry == LIST_RETRY,
            final(self).file_name is None,
            final(self).thread_count == old(self).thread_count,
            final(self).mode == old(self).mode,
            final(self).delete_stat == old(self).delete_stat,
            final(self).config_retry == old(self).config_retry,
            final(self).extend == old(self).extend,
    {
        self.url = url;
        self.output = None;
        self.retry = LIST_RETRY;
        self.file_name = None;
    }

    /// The name of the file.
    pub fn filename(&self) -> (r: Result<String, TaskError>)
        ensures
            match r {
                Ok(name) => name_of(text(self.file_name), self.url@) == Some(name@),
                Err(error) => error == TaskError::Name && name_of(text(self.file_name), self.url@) is None,
            },
    {
        match &self.file_name {
            Some(name) => Ok(name.clone()),
            None => {
                let tail: String = tail_of_url(self.url.as_str());
                match percent_decode(tail.as_str()) {
                    Ok(name) => Ok(name),
                    Err(_) => Err(TaskError::Name),
                }
            },
        }
    }

    /// The path to write, where `output_is_dir` says whether `output` is a directory.
    pub fn save_path(&self, output_is_dir: bool) -> (r: Result<String, TaskError>)
        ensures
            ({
                let path = path_of(text(self.output), output_is_dir, name_of(text(self.file_name), self.url@));
                match r {
                    Ok(p) => path == Some(p@),
                    Err(error) => error == TaskError::Name && path is None,
                }
            }),
    {
        match &self.output {
            Some(out) => if output_is_dir {
                match self.filename() {
                    Ok(name) => Ok(join_path(out.as_str(), name.as_str())),
                    Err(error) => Err(error),
                }
            } else {
                Ok(out.clone())
            },
            None => self.filename(),
        }
    }

    /// The name of the record that this download leaves where it is broken off.
    pub fn record_name(&self) -> (r: Result<String, TaskError>)
        ensures
            match r {
                Ok(record) => {
                    &&& name_of(text(self.file_name), self.url@) is Some
                    &&& record@ == without(name_of(text(self.file_name), self.url@)->0, '.') + ".json"@
                },
                Err(error) => error == TaskError::Name && name_of(text(self.file_name), self.url@) is None,
            },
    {
        match self.filename() {
            Ok(name) => Ok(json_fix_name(name)),
            Err(error) => Err(error),
        }
    }

    /// A connection of this download.
    pub fn create_process(&self, output_is_dir: bool) -> (r: Result<Process, TaskError>)
        ensures
            ({
                let path = path_of(text(self.output), output_is_dir, name_of(text(self.file_name), self.url@));
                match r {
                    Ok(process) => {
                        &&& path == Some(process.file_path@)
                        &&& process.max_retry == MAX_RETRY
                        &&& process.retry == 0
                        &&& process.mode == self.mode
                        &&& process.url@ == self.url@
                    },
                    Err(error) => error == TaskError::Name && path is None,
                }
            }),
    {
        match self.save_path(output_is_dir) {
            Ok(file_path) => Ok(
                Process { file_path, max_retry: MAX_RETRY, retry: 0, mode: self.mode, url: self.url.clone() },
            ),
            Err(error) => Err(error),
        }
    }

    /// Reads what the header fields of a reply say of the file: whether ranges of it can be asked
    /// for, and its length. The name that the server gives, and that it offers further servers,
    /// are kept, also where the length cannot be read.
    pub fn get_header(&mut self, headers: &HeaderMap<HeaderValue>) -> (r: Result<(bool, Option<u64>), TaskError>)
        ensures
            has_read(*old(self), fields(*headers), *final(self)),
            r == (match offered_length(fields(*headers)) {
                Ok(length) => Ok((offers_ranges(fields(*headers)), length)),
                Err(error) => Err(error),
            }),
    {
        proof {
            reply_names();
        }
        if headers_contain(headers, "seiki-enable") {
            self.extend.seiki_enable = true;
        }
        let ranges: bool = headers_contain(headers, "content-range") || headers_contain(headers, "accept-ranges");
        if let Some(value) = headers_get(headers, "content-disposition") {
            let shown: String = utf8_lossy(value.as_slice());
            if let Some(name) = disposition_name(shown.as_str()) {
                self.file_name = Some(name);
            }
        }
        let length: Option<u64> = match headers_get(headers, "content-length") {
            Some(value) => match value_text(value.as_slice()) {
                Ok(digits) => match parse_u64(digits.as_str()) {
                    Some(n) => Some(n),
                    None => return Err(TaskError::Length),
                },
                Err(_) => return Err(TaskError::Field),
            },
            None => None,
        };
        Ok((ranges, length))
    }

    /// What comes of the reply of this status and these header fields to the first request;
    /// `tries` says how often the server is asked again.
    pub fn location(&mut self, status: u16, headers: &HeaderMap<HeaderValue>, tries: u8) -> (r: Result<
        LocationStep,
        TaskError,
    >)
        ensures
            ({
                let f = fields(*headers);
                if status == 200 || status == 206 {
                    &&& has_read(*old(self), f, *final(self))
                    &&& match offered_length(f) {
                        Ok(length) => r == Ok::<LocationStep, TaskError>(
                            LocationStep::Found { ranges: offers_ranges(f), length },
                        ),
                        Err(error) => r == Err::<LocationStep, TaskError>(error),
                    }
                } else {
                    &&& same_settings(*old(self), *final(self))
                    &&& final(self).file_name == old(self).file_name
                    &&& final(self).extend == old(self).extend
                    &&& match complaint(status, f) {
                        None => match visible_text(f["location"@][0]) {
                            Some(url) => {
                                &&& final(self).url@ == url
                                &&& r == Ok::<LocationStep, TaskError>(
                                    LocationStep::Moved { servers: old(self).extend.seiki_enable },
                                )
                            },
                            None => {
                                &&& final(self).url == old(self).url
                                &&& r == Err::<LocationStep, TaskError>(TaskError::Field)
                            },
                        },
                        Some(words) => {
                            &&& final(self).url == old(self).url
                            &&& match tries_left(old(self).config_retry, tries) {
                                Some(left) => r matches Ok(LocationStep::Again { message, tries }) && message@ == words
                                    && tries == left,
                                None => r matches Ok(LocationStep::GiveUp { message }) && message@ == words,
                            }
                        },
                    }
                }
            }),
    {
        if status == 200 || status == 206 {
            return match self.get_header(headers) {
                Ok((ranges, length)) => Ok(LocationStep::Found { ranges, length }),
                Err(error) => Err(error),
            };
        }
        proof {
            reply_names();
        }
        let message: String = if status == 302 {
            match headers_get(headers, "location") {
                Some(value) => return match value_text(value.as_slice()) {
                    Ok(url) => {
                        self.url = url;
                        Ok(LocationStep::Moved { servers: self.extend.seiki_enable })
                    },
                    Err(_) => Err(TaskError::Field),
                },
                None => "url code is 302, but not found Location!".to_string(),
            }
        } else if status == 403 {
            "url code is 403!, please check your header!".to_string()
        } else if status == 404 {
            "url code is 404!, please check your url!".to_string()
        } else if status == 429 {
            "url code is 429!, please reduce requests!".to_string()
        } else if status == 500 {
            "url code is 500?".to_string()
        } else {
            let mut message: String = "url code is ".to_string();
            push_decimal(&mut message, status as u64);
            message
        };
        if !self.config_retry || tries == 0 {
            Ok(LocationStep::GiveUp { message })
        } else {
            Ok(LocationStep::Again { message, tries: tries - 1 })
        }
    }

    /// Keeps the further servers that a server has sent.
    pub fn keep_servers(&mut self, seiki: Seiki)
        ensures
            final(self).extend.seiki_server_list == seiki.server,
            final(self).extend.seiki_enable == old(self).extend.seiki_enable,
            final(self).url == old(self).url,
            final(self).file_name == old(self).file_name,
            same_settings(*old(self), *final(self)),
    {
        self.extend.seiki_server_list = seiki.server;
    }

    /// How the download is done, once `location` has found its file: `output` of the options
    /// takes the place of the name, the percent escapes of the name are replaced, and several
    /// connections share it where the options force it, and, unless the options ask for one
    /// connection, where ranges can be asked for or the server offers further servers.
    pub fn download(&mut self, config: &Config, ranges: bool) -> (r: Result<DownloadPlan, TaskError>)
        ensures
            final(self).url == old(self).url,
            final(self).extend == old(self).extend,
            same_settings(*old(self), *final(self)),
            match chosen_name(text(config.output), text(old(self).file_name)) {
                Some(chosen) => match percent_text(chosen) {
                    Some(name) => {
                        &&& text(final(self).file_name) == Some(name)
                        &&& r matches Ok(plan) && plan.name@ == name
                    },
                    None => {
                        &&& text(final(self).file_name) == Some(chosen)
                        &&& r is Err
                    },
                },
                None => {
                    &&& final(self).file_name is None
                    &&& match percent_text(url_tail(old(self).url@)) {
                        Some(name) => r matches Ok(plan) && plan.name@ == name,
                        None => r is Err,
                    }
                },
            },
            match r {
                Ok(plan) => plan.threads == uses_threads(ranges, *config, old(self).extend.seiki_enable),
                Err(error) => error == TaskError::Name,
            },
    {
        if let Some(name) = &config.output {
            self.file_name = Some(name.clone());
        }
        let decoded: Option<String> = match &self.file_name {
            Some(file_name) => match percent_decode(file_name.as_str()) {
                Ok(name) => Some(name),
                Err(_) => return Err(TaskError::Name),
            },
            None => None,
        };
        self.file_name = decoded;
        let name: String = match self.filename() {
            Ok(name) => name,
            Err(error) => return Err(error),
        };
        let threads: bool = config.force_thread || (!config.one_download && (ranges || self.extend.seiki_enable));
        Ok(DownloadPlan { name, threads })
    }

    /// Whether the record of a broken download, which `saved` says is there, is taken up.
    pub fn takes_up(&self, saved: bool) -> (r: bool)
        ensures
            r == is_taken_up(*self, saved),
    {
        saved && !self.delete_stat
    }

    /// Takes up the record of a broken download.
    pub fn downloaded(&self, board: &mut Board, saved: &Sjson) -> (r: Result<(), TaskError>)
        ensures
            match resumed(
                parsed_table(saved.ato@),
                parsed_table(saved.eto@),
                old(board).positions(),
                old(board).ends(),
            ) {
                Ok((positions, ends)) => {
                    &&& r is Ok
                    &&& final(board).positions() == positions
                    &&& final(board).ends() == ends
                },
                Err(error) => {
                    &&& r == Err::<(), TaskError>(TaskError::Resume(error))
                    &&& final(board).positions() == old(board).positions()
                    &&& final(board).ends() == old(board).ends()
                },
            },
    {
        match board.resume(saved) {
            Ok(_) => Ok(()),
            Err(error) => Err(TaskError::Resume(error)),
        }
    }

    /// Cuts the file into one range for each connection. Without its size that cannot be done;
    /// `force_thread` says whether the options force several connections.
    pub fn thread_download(&self, board: &mut Board, file_size: Option<u64>, force_thread: bool) -> (r: Result<
        (),
        TaskError,
    >)
        requires
            file_size matches Some(size) ==> 0 < size && 0 < self.thread_count,
        ensures
            match cut(self.thread_count, file_size, force_thread, old(board).positions(), old(board).ends()) {
                Ok((positions, ends)) => {
                    &&& r is Ok
                    &&& final(board).positions() == positions
                    &&& final(board).ends() == ends
                    &&& old(board).paired() ==> final(board).paired()
                },
                Err(error) => {
                    &&& r == Err::<(), TaskError>(error)
                    &&& final(board).positions() == old(board).positions()
                    &&& final(board).ends() == old(board).ends()
                },
            },
    {
        match file_size {
            Some(size) => {
                board.assign(size, self.thread_count);
                Ok(())
            },
            None => if force_thread {
                Err(TaskError::NoSizeForced)
            } else {
                Err(TaskError::NoSize)
            },
        }
    }

    /// The download over one connection.
    pub fn one_download(&self, file_size: Option<u64>) -> (r: OneDownload)
        ensures
            r == (OneDownload { mode: self.mode, size: file_size, count: 0 }),
    {
        OneDownload::new(self.mode, file_size)
    }

    /// What is written where the user stops the download: the name of the record, and the board.
    pub fn downed_for(&self, board: &Board) -> (r: Result<(String, Sjson), TaskError>)
        ensures
            match r {
                Ok((record, saved)) => {
                    &&& name_of(text(self.file_name), self.url@) is Some
                    &&& record@ == without(name_of(text(self.file_name), self.url@)->0, '.') + ".json"@
                    &&& parsed_table(saved.ato@) == Some(board.positions())
                    &&& parsed_table(saved.eto@) == Some(board.ends())
                },
                Err(error) => error == TaskError::Name && name_of(text(self.file_name), self.url@) is None,
            },
    {
        match self.record_name() {
            Ok(record) => Ok((record, board.snapshot())),
            Err(error) => Err(error),
        }
    }

    /// How the connections on the board are used again: where the file has at least
    /// `resumd_min_body` KiB. Without its size, the file is taken to go up to the farthest end.
    /// `None` where the board holds no connection, or one without an end, and where that least
    /// size does not fit.
    pub fn downloads(&self, board: &Board, file_size: Option<u64>, resumd_min_body: u64) -> (r: Option<ReusePlan>)
        ensures
            r is Some <==> can_plan(*board, resumd_min_body),
            r matches Some(plan) ==> {
                &&& is_longest(board.positions(), board.ends(), plan.one_bytes)
                &&& plan.basic_id == self.thread_count + 1
                &&& match file_size {
                    Some(size) => plan.reuse == (size >= resumd_min_body * 1024),
                    None => exists|end: u64| #[trigger]
                        is_farthest(board.ends(), end) && plan.reuse == (end + 1 >= resumd_min_body * 1024),
                }
            },
    {
        let end: u64 = match board.farthest() {
            Some(end) => end,
            None => {
                assert(can_plan(*board, resumd_min_body) ==> board.positions() =~= Map::<u64, u64>::empty());
                return None;
            },
        };
        if board.holds_none() || !board.is_bounded() || resumd_min_body > u64::MAX / 1024 {
            return None;
        }
        let least: u64 = resumd_min_body * 1024;
        let reuse: bool = match file_size {
            Some(size) => size >= least,
            None => least == 0 || end >= least - 1,
        };
        Some(ReusePlan { one_bytes: board.longest(), reuse, basic_id: self.thread_count as u64 + 1 })
    }

    /// Takes connection `id`, which has reported, off the board, and looks for the one that has
    /// the farthest to go. Its range is split only under an id that no connection holds; until the
    /// one that holds it reports, it stays whole.
    pub fn resumd_thread(&self, board: &mut Board, id: u64) -> (r: Reuse)
        requires
            old(board).bounded_but(id),
        ensures
            final(board).positions() == old(board).positions().remove(id),
            final(board).ends() == old(board).ends().remove(id),
            final(board).bounded(),
            old(board).paired() ==> final(board).paired(),
            match r {
                Reuse::Over => final(board).positions() == Map::<u64, u64>::empty(),
                Reuse::Wait => {
                    &&& final(board).positions() != Map::<u64, u64>::empty()
                    &&& forall|other: u64| !#[trigger] lags(final(board).positions(), final(board).ends(), other)
                },
                Reuse::Slowest(lag) => {
                    &&& is_slowest(final(board).positions(), final(board).ends(), lag)
                    &&& can_split(
                        final(board).positions(),
                        final(board).ends(),
                        (self.thread_count + 1) as u64,
                        lag,
                    )
                },
                Reuse::Held(lag) => {
                    &&& is_slowest(final(board).positions(), final(board).ends(), lag)
                    &&& !can_split(
                        final(board).positions(),
                        final(board).ends(),
                        (self.thread_count + 1) as u64,
                        lag,
                    )
                },
            },
    {
        if board.finish(id) {
            return Reuse::Over;
        }
        match board.slowest() {
            Some(lag) => if board.may_split(self.thread_count as u64 + 1, lag) {
                Reuse::Slowest(lag)
            } else {
                Reuse::Held(lag)
            },
            None => Reuse::Wait,
        }
    }
}

/// How the connections on a board are used again can be said: the board holds a connection, each
/// has an end, and `resumd_min_body` KiB are a number of bytes that fits.
pub open spec fn can_plan(board: Board, resumd_min_body: u64) -> bool {
    &&& board.positions() != Map::<u64, u64>::empty()
    &&& board.bounded()
    &&& resumd_min_body * 1024 <= u64::MAX
}

/// The file name that the text of a `Content-Disposition` header gives.
pub fn disposition_name(s: &str) -> (r: Option<String>)
    ensures
        text(r) == named_file(s@),
{
    first_group(FILENAME_PATTERN, s)
}

/// The header of the first request: `header`, with a range from the first byte on.
pub fn probe_header(header: &HeaderMap<HeaderValue>) -> (r: Result<HeaderMap<HeaderValue>, HeaderError>)
    ensures
        match r {
            Ok(probe) => fields(probe) == appended(fields(*header), "range"@, encode_utf8("bytes=0-"@)),
            Err(error) => error == HeaderError::TooMany && fields(*header).dom().len() >= room(),
        },
{
    let mut probe: HeaderMap<HeaderValue> = headers_clone(header);
    proof {
        reply_names();
        reveal_strlit("bytes=0-");
        plain_value("bytes=0-"@);
    }
    match parse_value("bytes=0-") {
        Ok(value) => match headers_append(&mut probe, "range", value.as_slice()) {
            Ok(_) => Ok(probe),
            Err(_) => Err(HeaderError::TooMany),
        },
        Err(_) => Err(HeaderError::Value),
    }
}

/// The names of the fields that are read from replies, and of the one that asks for a range,
/// are names.
proof fn reply_names()
    ensures
        is_name("seiki-enable"@),
        is_name("content-range"@),
        is_name("accept-ranges"@),
        is_name("content-disposition"@),
        is_name("content-length"@),
        is_name("location"@),
        is_name("range"@),
{
    reveal_strlit("seiki-enable");
    reveal_strlit("content-range");
    reveal_strlit("accept-ranges");
    reveal_strlit("content-disposition");
    reveal_strlit("content-length");
    reveal_strlit("location");
    reveal_strlit("range");
    plain_name("seiki-enable"@);
    plain_name("content-range"@);
    plain_name("accept-ranges"@);
    plain_name("content-disposition"@);
    plain_name("content-length"@);
    plain_name("location"@);
    plain_name("range"@);
}

} // verus!
