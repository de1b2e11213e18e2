//! What `nvim_get_api_info` tells about the connected Neovim.

use vstd::prelude::*;

use crate::text::str_eq;
use crate::value::{array_of, i64_of, pairs_of, str_of, take_front, Value};

verus! {

/// The channel and the UI extensions and functions the connected Neovim supports.
#[derive(Debug)]
pub struct NeovimApiInfo {
    pub channel: i64,
    pub ext_cmdline: bool,
    pub ext_wildmenu: bool,
    pub ext_hlstate: bool,
    pub ext_linegrid: bool,
    pub ext_popupmenu: bool,
    pub ext_tabline: bool,
    pub ext_termcolors: bool,
    pub ui_pum_set_height: bool,
    pub ui_pum_set_bounds: bool,
}

/// Why an API info reply could not be read, with the value that the message shows where it
/// shows one.
#[derive(Debug, PartialEq)]
pub enum ApiInfoError {
    ChannelMissing,
    ChannelNotI64,
    MetadataMissing,
    /// The metadata, which is not a map.
    MetadataWrongType(Value),
    /// The metadata key that is not a string.
    MetadataKeyNotString(Value),
    /// The `ui_options` value, which is not a list.
    UiOptionListInvalid(Value),
    /// The whole `ui_options` list, one of whose entries is not a string.
    UiOptionNotString(Value),
    /// The `functions` value, which is not a list.
    FunctionListInvalid(Value),
    /// The function entry that is not a map.
    FunctionInfoNotMap(Value),
    /// The whole `functions` list, one of whose entries has no name.
    FunctionInfoMissingName(Value),
}

/// The message of each error: the text before the value it shows, the value, and the text
/// after it.
pub open spec fn api_info_error_parts(e: ApiInfoError) -> (Seq<char>, Option<Value>, Seq<char>) {
    match e {
        ApiInfoError::ChannelMissing => ("Channel is missing"@, None, Seq::empty()),
        ApiInfoError::ChannelNotI64 => ("Channel is not i64"@, None, Seq::empty()),
        ApiInfoError::MetadataMissing => ("Metadata is missing"@, None, Seq::empty()),
        ApiInfoError::MetadataWrongType(v) => ("Metadata is wrong type, got "@, Some(v), Seq::empty()),
        ApiInfoError::MetadataKeyNotString(v) => ("Metadata key "@, Some(v), " isn't string"@),
        ApiInfoError::UiOptionListInvalid(v) => ("UI option list is invalid: "@, Some(v), Seq::empty()),
        ApiInfoError::UiOptionNotString(v) => ("UI option isn't string: "@, Some(v), Seq::empty()),
        ApiInfoError::FunctionListInvalid(v) => ("Function list is not a list: "@, Some(v), Seq::empty()),
        ApiInfoError::FunctionInfoNotMap(v) => ("Function info is not a map: "@, Some(v), Seq::empty()),
        ApiInfoError::FunctionInfoMissingName(v) => ("Function info is missing name: "@, Some(v), Seq::empty()),
    }
}

impl ApiInfoError {
    /// The message for the error, in three parts: the text before the value it shows (written
    /// in its debug form), that value, and the text after it.
    pub fn message_parts(&self) -> (r: (String, Option<&Value>, String))
        ensures
            ({
                let (before, value, after) = api_info_error_parts(*self);
                &&& r.0@ == before
                &&& r.2@ == after
                &&& match r.1 {
                    Some(v) => value == Some(*v),
                    None => value is None,
                }
            }),
    {
        match self {
            ApiInfoError::ChannelMissing => ("Channel is missing".to_owned(), None, String::new()),
            ApiInfoError::ChannelNotI64 => ("Channel is not i64".to_owned(), None, String::new()),
            ApiInfoError::MetadataMissing => ("Metadata is missing".to_owned(), None, String::new()),
            ApiInfoError::MetadataWrongType(v) => ("Metadata is wrong type, got ".to_owned(), Some(v), String::new()),
            ApiInfoError::MetadataKeyNotString(v) => ("Metadata key ".to_owned(), Some(v), " isn't string".to_owned()),
            ApiInfoError::UiOptionListInvalid(v) => ("UI option list is invalid: ".to_owned(), Some(v), String::new()),
            ApiInfoError::UiOptionNotString(v) => ("UI option isn't string: ".to_owned(), Some(v), String::new()),
            ApiInfoError::FunctionListInvalid(v) => ("Function list is not a list: ".to_owned(), Some(v), String::new()),
            ApiInfoError::FunctionInfoNotMap(v) => ("Function info is not a map: ".to_owned(), Some(v), String::new()),
            ApiInfoError::FunctionInfoMissingName(v) => (
                "Function info is missing name: ".to_owned(),
                Some(v),
                String::new(),
            ),
        }
    }
}

/// The info with nothing supported yet, on `channel`.
pub open spec fn blank_info(channel: i64) -> NeovimApiInfo {
    NeovimApiInfo {
        channel,
        ext_cmdline: false,
        ext_wildmenu: false,
        ext_hlstate: false,
        ext_linegrid: false,
        ext_popupmenu: false,
        ext_tabline: false,
        ext_termcolors: false,
        ui_pum_set_height: false,
        ui_pum_set_bounds: false,
    }
}

/// `info` with the UI extension `name` marked as supported; unknown names change nothing.
pub open spec fn with_ui_option(info: NeovimApiInfo, name: Seq<char>) -> NeovimApiInfo {
    if name == "ext_cmdline"@ {
        NeovimApiInfo { ext_cmdline: true, ..info }
    } else if name == "ext_wildmenu"@ {
        NeovimApiInfo { ext_wildmenu: true, ..info }
    } else if name == "ext_hlstate"@ {
        NeovimApiInfo { ext_hlstate: true, ..info }
    } else if name == "ext_linegrid"@ {
        NeovimApiInfo { ext_linegrid: true, ..info }
    } else if name == "ext_popupmenu"@ {
        NeovimApiInfo { ext_popupmenu: true, ..info }
    } else if name == "ext_tabline"@ {
        NeovimApiInfo { ext_tabline: true, ..info }
    } else if name == "ext_termcolors"@ {
        NeovimApiInfo { ext_termcolors: true, ..info }
    } else {
        info
    }
}

/// `info` after reading the UI option names `opts` in order; the first one that is not a
/// string is an error that shows the whole list `whole`.
pub open spec fn ui_options_read(info: NeovimApiInfo, opts: Seq<Value>, whole: Value) -> Result<NeovimApiInfo, ApiInfoError>
    decreases opts.len(),
{
    if opts.len() == 0 {
        Ok(info)
    } else {
        match ui_options_read(info, opts.drop_last(), whole) {
            Err(e) => Err(e),
            Ok(i) => match str_of(opts.last()) {
                Some(n) => Ok(with_ui_option(i, n)),
                None => Err(ApiInfoError::UiOptionNotString(whole)),
            },
        }
    }
}

pub open spec fn ui_options_result(info: NeovimApiInfo, v: Value) -> Result<NeovimApiInfo, ApiInfoError> {
    match array_of(v) {
        Some(a) => ui_options_read(info, a, v),
        None => Err(ApiInfoError::UiOptionListInvalid(v)),
    }
}

/// The name of a function info map: the value of its first `name` entry whose value is a
/// string.
pub open spec fn function_name_of(pairs: Seq<(Value, Value)>) -> Option<Seq<char>>
    decreases pairs.len(),
{
    if pairs.len() == 0 {
        None
    } else if str_of(pairs[0].0) == Some("name"@) && str_of(pairs[0].1).is_some() {
        str_of(pairs[0].1)
    } else {
        function_name_of(pairs.drop_first())
    }
}

/// `info` with the function `name` marked as available; other functions change nothing.
pub open spec fn with_function(info: NeovimApiInfo, name: Seq<char>) -> NeovimApiInfo {
    if name == "nvim_ui_pum_set_height"@ {
        NeovimApiInfo { ui_pum_set_height: true, ..info }
    } else if name == "nvim_ui_pum_set_bounds"@ {
        NeovimApiInfo { ui_pum_set_bounds: true, ..info }
    } else {
        info
    }
}

/// `info` after reading the function entries `fns` in order: an entry that is not a map is an
/// error that shows it, an entry without a name one that shows the whole list `whole`.
pub open spec fn functions_read(info: NeovimApiInfo, fns: Seq<Value>, whole: Value) -> Result<NeovimApiInfo, ApiInfoError>
    decreases fns.len(),
{
    if fns.len() == 0 {
        Ok(info)
    } else {
        match functions_read(info, fns.drop_last(), whole) {
            Err(e) => Err(e),
            Ok(i) => match pairs_of(fns.last()) {
                None => Err(ApiInfoError::FunctionInfoNotMap(fns.last())),
                Some(p) => match function_name_of(p) {
                    None => Err(ApiInfoError::FunctionInfoMissingName(whole)),
                    Some(n) => Ok(with_function(i, n)),
                },
            },
        }
    }
}

pub open spec fn functions_result(info: NeovimApiInfo, v: Value) -> Result<NeovimApiInfo, ApiInfoError> {
    match array_of(v) {
        Some(a) => functions_read(info, a, v),
        None => Err(ApiInfoError::FunctionListInvalid(v)),
    }
}

/// `info` after reading the metadata entries in order.
pub open spec fn metadata_read(info: NeovimApiInfo, pairs: Seq<(Value, Value)>) -> Result<NeovimApiInfo, ApiInfoError>
    decreases pairs.len(),
{
    if pairs.len() == 0 {
        Ok(info)
    } else {
        match metadata_read(info, pairs.drop_last()) {
            Err(e) => Err(e),
            Ok(i) => {
                let (key, value) = pairs.last();
                match str_of(key) {
                    None => Err(ApiInfoError::MetadataKeyNotString(key)),
                    Some(k) => if k == "ui_options"@ {
                        ui_options_result(i, value)
                    } else if k == "functions"@ {
                        functions_result(i, value)
                    } else {
                        Ok(i)
                    },
                }
            },
        }
    }
}

/// What reading the reply `[channel, metadata, ...]` of `nvim_get_api_info` gives.
pub open spec fn api_info_of(api: Seq<Value>) -> Result<NeovimApiInfo, ApiInfoError> {
    if api.len() == 0 {
        Err(ApiInfoError::ChannelMissing)
    } else if i64_of(api[0]).is_none() {
        Err(ApiInfoError::ChannelNotI64)
    } else if api.len() < 2 {
        Err(ApiInfoError::MetadataMissing)
    } else if pairs_of(api[1]).is_none() {
        Err(ApiInfoError::MetadataWrongType(api[1]))
    } else {
        metadata_read(blank_info(i64_of(api[0]).unwrap()), pairs_of(api[1]).unwrap())
    }
}

impl NeovimApiInfo {
    fn blank(channel: i64) -> (r: Self)
        ensures
            r == blank_info(channel),
    {
        NeovimApiInfo {
            channel,
            ext_cmdline: false,
            ext_wildmenu: false,
            ext_hlstate: false,
            ext_linegrid: false,
            ext_popupmenu: false,
            ext_tabline: false,
            ext_termcolors: false,
            ui_pum_set_height: false,
            ui_pum_set_bounds: false,
        }
    }

    pub fn new(api_info: Vec<Value>) -> (r: Result<Self, ApiInfoError>)
        ensures
            r == api_info_of(api_info@),
    {
        let ghost api = api_info@;
        let mut rest = api_info;
        let first = match take_front(&mut rest) {
            Some(v) => v,
            None => {
                return Err(ApiInfoError::ChannelMissing);
            },
        };
        let channel = match first.as_i64() {
            Some(c) => c,
            None => {
                return Err(ApiInfoError::ChannelNotI64);
            },
        };
        let meta = match take_front(&mut rest) {
            Some(m) => m,
            None => {
                return Err(ApiInfoError::MetadataMissing);
            },
        };
        assert(meta == api[1]);
        let mut metadata = match meta {
            Value::Pairs(p) => p,
            other => {
                return Err(ApiInfoError::MetadataWrongType(other));
            },
        };
        let ghost all = metadata@;
        let mut info = NeovimApiInfo::blank(channel);
        let ghost mut done: int = 0;
        while metadata.len() > 0
            invariant
                0 <= done <= all.len(),
                metadata@ == all.subrange(done, all.len() as int),
                api == api_info@,
                api.len() >= 2,
                i64_of(api[0]) == Some(channel),
                pairs_of(api[1]) == Some(all),
                metadata_read(blank_info(channel), all.subrange(0, done)) == Ok::<NeovimApiInfo, ApiInfoError>(info),
            decreases metadata@.len(),
        {
            let (key, value) = match take_front(&mut metadata) {
                Some(kv) => kv,
                None => {
                    return Ok(info);
                },
            };
            assert(all[done] == (key, value));
            assert(all.subrange(0, done + 1).drop_last() == all.subrange(0, done));
            assert(all.subrange(0, done + 1).last() == all[done]);
            assert(metadata@ == all.subrange(done + 1, all.len() as int));
            let (is_str, is_ui, is_fns) = match key.as_str() {
                Some(k) => (true, str_eq(k, "ui_options"), str_eq(k, "functions")),
                None => (false, false, false),
            };
            if !is_str {
                assert(str_of(key) is None);
                assert(metadata_read(blank_info(channel), all.subrange(0, done + 1)) == Err::<NeovimApiInfo, ApiInfoError>(
                    ApiInfoError::MetadataKeyNotString(key),
                ));
                proof {
                    lemma_metadata_err_sticks(blank_info(channel), all, done + 1);
                }
                return Err(ApiInfoError::MetadataKeyNotString(key));
            }
            if is_ui {
                let ghost before = info;
                let res = info.parse_ui_options(value);
                if let Err(e) = res {
                    assert(str_of(key) == Some("ui_options"@));
                    assert(ui_options_result(before, value) == Err::<NeovimApiInfo, ApiInfoError>(e));
                    assert(metadata_read(blank_info(channel), all.subrange(0, done + 1)) == Err::<NeovimApiInfo, ApiInfoError>(e));
                    proof {
                        lemma_metadata_err_sticks(blank_info(channel), all, done + 1);
                    }
                    return Err(e);
                }
            } else if is_fns {
                let ghost before = info;
                let res = info.parse_functions(value);
                if let Err(e) = res {
                    assert(str_of(key) == Some("functions"@));
                    assert(functions_result(before, value) == Err::<NeovimApiInfo, ApiInfoError>(e));
                    assert(metadata_read(blank_info(channel), all.subrange(0, done + 1)) == Err::<NeovimApiInfo, ApiInfoError>(e));
                    proof {
                        lemma_metadata_err_sticks(blank_info(channel), all, done + 1);
                    }
                    return Err(e);
                }
            }
            proof {
                done = done + 1;
            }
        }
        assert(all.subrange(0, all.len() as int) == all);
        Ok(info)
    }

    /// Reads the UI option names of `extensions`: `None` where it is not a list, `Some(true)`
    /// where every entry is a string, `Some(false)` where one is not.
    fn read_ui_options(&mut self, extensions: &Value) -> (r: Option<bool>)
        ensures
            match array_of(*extensions) {
                None => r is None,
                Some(a) => match ui_options_read(*old(self), a, *extensions) {
                    Ok(i) => r == Some(true) && *final(self) == i,
                    Err(e) => r == Some(false) && e == ApiInfoError::UiOptionNotString(*extensions),
                },
            },
    {
        let list = match extensions.as_array() {
            Some(l) => l,
            None => {
                return None;
            },
        };
        let ghost start = *self;
        let mut i: usize = 0;
        while i < list.len()
            invariant
                i <= list@.len(),
                start == *old(self),
                array_of(*extensions) == Some(list@),
                ui_options_read(start, list@.subrange(0, i as int), *extensions) == Ok::<
                    NeovimApiInfo,
                    ApiInfoError,
                >(*self),
            decreases list.len() - i,
        {
            assert(list@.subrange(0, i + 1).drop_last() == list@.subrange(0, i as int));
            assert(list@.subrange(0, i + 1).last() == list@[i as int]);
            let name = match list[i].as_str() {
                Some(n) => n,
                None => {
                    assert(ui_options_read(start, list@.subrange(0, i + 1), *extensions) == Err::<
                        NeovimApiInfo,
                        ApiInfoError,
                    >(ApiInfoError::UiOptionNotString(*extensions)));
                    proof {
                        lemma_ui_options_err_sticks(start, list@, i + 1, *extensions);
                    }
                    return Some(false);
                },
            };
            if str_eq(name, "ext_cmdline") {
                self.ext_cmdline = true;
            } else if str_eq(name, "ext_wildmenu") {
                self.ext_wildmenu = true;
            } else if str_eq(name, "ext_hlstate") {
                self.ext_hlstate = true;
            } else if str_eq(name, "ext_linegrid") {
                self.ext_linegrid = true;
            } else if str_eq(name, "ext_popupmenu") {
                self.ext_popupmenu = true;
            } else if str_eq(name, "ext_tabline") {
                self.ext_tabline = true;
            } else if str_eq(name, "ext_termcolors") {
                self.ext_termcolors = true;
            }
            i = i + 1;
        }
        assert(list@.subrange(0, list@.len() as int) == list@);
        Some(true)
    }

    fn parse_ui_options(&mut self, extensions: Value) -> (r: Result<(), ApiInfoError>)
        ensures
            match ui_options_result(*old(self), extensions) {
                Ok(i) => r is Ok && *final(self) == i,
                Err(e) => r == Err::<(), ApiInfoError>(e),
            },
    {
        match self.read_ui_options(&extensions) {
            None => Err(ApiInfoError::UiOptionListInvalid(extensions)),
            Some(true) => Ok(()),
            Some(false) => Err(ApiInfoError::UiOptionNotString(extensions)),
        }
    }

    /// Reads the function entries of `functions`: `None` where it is not a list, `Some(Ok)`
    /// where every entry names a function, else the index of the first entry that does not and
    /// whether that entry is not a map at all.
    fn read_functions(&mut self, functions: &Value) -> (r: Option<Result<(), (usize, bool)>>)
        ensures
            match array_of(*functions) {
                None => r is None,
                Some(a) => match r {
                    None => false,
                    Some(Ok(())) => functions_read(*old(self), a, *functions) == Ok::<NeovimApiInfo, ApiInfoError>(
                        *final(self),
                    ),
                    Some(Err((k, not_map))) => k < a.len() && functions_read(*old(self), a, *functions) == if not_map {
                        Err::<NeovimApiInfo, ApiInfoError>(ApiInfoError::FunctionInfoNotMap(a[k as int]))
                    } else {
                        Err::<NeovimApiInfo, ApiInfoError>(ApiInfoError::FunctionInfoMissingName(*functions))
                    },
                },
            },
    {
        let list = match functions.as_array() {
            Some(l) => l,
            None => {
                return None;
            },
        };
        let ghost start = *self;
        let mut i: usize = 0;
        while i < list.len()
            invariant
                i <= list@.len(),
                start == *old(self),
                array_of(*functions) == Some(list@),
                functions_read(start, list@.subrange(0, i as int), *functions) == Ok::<
                    NeovimApiInfo,
                    ApiInfoError,
                >(*self),
            decreases list.len() - i,
        {
            assert(list@.subrange(0, i + 1).drop_last() == list@.subrange(0, i as int));
            assert(list@.subrange(0, i + 1).last() == list@[i as int]);
            let pairs = match list[i].as_map() {
                Some(p) => p,
                None => {
                    proof {
                        lemma_functions_err_sticks(start, list@, i + 1, *functions);
                    }
                    return Some(Err((i, true)));
                },
            };
            let name = match find_function_name(pairs) {
                Some(n) => n,
                None => {
                    proof {
                        lemma_functions_err_sticks(start, list@, i + 1, *functions);
                    }
                    return Some(Err((i, false)));
                },
            };
            if str_eq(name, "nvim_ui_pum_set_height") {
                self.ui_pum_set_height = true;
            } else if str_eq(name, "nvim_ui_pum_set_bounds") {
                self.ui_pum_set_bounds = true;
            }
            i = i + 1;
        }
        assert(list@.subrange(0, list@.len() as int) == list@);
        Some(Ok(()))
    }

    fn parse_functions(&mut self, functions: Value) -> (r: Result<(), ApiInfoError>)
        ensures
            match functions_result(*old(self), functions) {
                Ok(i) => r is Ok && *final(self) == i,
                Err(e) => r == Err::<(), ApiInfoError>(e),
            },
    {
        match self.read_functions(&functions) {
            None => Err(ApiInfoError::FunctionListInvalid(functions)),
            Some(Ok(())) => Ok(()),
            Some(Err((k, false))) => Err(ApiInfoError::FunctionInfoMissingName(functions)),
            Some(Err((k, true))) => match functions {
                Value::Array(mut list) => {
                    let entry = list.remove(k);
                    Err(ApiInfoError::FunctionInfoNotMap(entry))
                },
                _ => {
                    proof {
                        assert(false);
                    }
                    Err(ApiInfoError::FunctionListInvalid(functions))
                },
            },
        }
    }
}

/// The name of a function info map.
fn find_function_name(pairs: &Vec<(Value, Value)>) -> (r: Option<&str>)
    ensures
        r.is_some() == function_name_of(pairs@).is_some(),
        r matches Some(n) ==> n@ == function_name_of(pairs@).unwrap(),
{
    let mut i: usize = 0;
    assert(pairs@.subrange(0, pairs@.len() as int) == pairs@);
    while i < pairs.len()
        invariant
            i <= pairs@.len(),
            function_name_of(pairs@) == function_name_of(pairs@.subrange(i as int, pairs@.len() as int)),
        decreases pairs.len() - i,
    {
        let ghost rest = pairs@.subrange(i as int, pairs@.len() as int);
        assert(rest[0] == pairs@[i as int]);
        assert(rest.drop_first() == pairs@.subrange(i + 1, pairs@.len() as int));
        let key_is_name = match pairs[i].0.as_str() {
            Some(k) => str_eq(k, "name"),
            None => false,
        };
        if key_is_name {
            if let Some(v) = pairs[i].1.as_str() {
                return Some(v);
            }
        }
        i = i + 1;
    }
    None
}

} // verus!

verus! {

proof fn lemma_ui_options_err_sticks(info: NeovimApiInfo, s: Seq<Value>, k: int, whole: Value)
    requires
        0 <= k <= s.len(),
        ui_options_read(info, s.subrange(0, k), whole) is Err,
    ensures
        ui_options_read(info, s, whole) == ui_options_read(info, s.subrange(0, k), whole),
    decreases s.len() - k,
{
    if k < s.len() {
        assert(s.subrange(0, k + 1).drop_last() == s.subrange(0, k));
        lemma_ui_options_err_sticks(info, s, k + 1, whole);
    } else {
        assert(s.subrange(0, k) == s);
    }
}

proof fn lemma_functions_err_sticks(info: NeovimApiInfo, s: Seq<Value>, k: int, whole: Value)
    requires
        0 <= k <= s.len(),
        functions_read(info, s.subrange(0, k), whole) is Err,
    ensures
        functions_read(info, s, whole) == functions_read(info, s.subrange(0, k), whole),
    decreases s.len() - k,
{
    if k < s.len() {
        assert(s.subrange(0, k + 1).drop_last() == s.subrange(0, k));
        lemma_functions_err_sticks(info, s, k + 1, whole);
    } else {
        assert(s.subrange(0, k) == s);
    }
}

proof fn lemma_metadata_err_sticks(info: NeovimApiInfo, s: Seq<(Value, Value)>, k: int)
    requires
        0 <= k <= s.len(),
        metadata_read(info, s.subrange(0, k)) is Err,
    ensures
        metadata_read(info, s) == metadata_read(info, s.subrange(0, k)),
    decreases s.len() - k,
{
    if k < s.len() {
        assert(s.subrange(0, k + 1).drop_last() == s.subrange(0, k));
        lemma_metadata_err_sticks(info, s, k + 1);
    } else {
        assert(s.subrange(0, k) == s);
    }
}

} // verus!
