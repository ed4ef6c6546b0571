//! The parameter store: current parameters by name, and every version of each.
use vstd::prelude::*;
use crate::runtime::now_seconds;
use crate::ses::state::{copy_opt, opt_text};
use crate::ssm::types::{
    copy_params, param_views, ParamView, Parameter, ParameterRecordSnapshot, ParameterType, PutParameterRequest,
    SsmSnapshot,
};
use crate::table::{lemma_map_values_insert, lemma_map_values_remove, Table};
use crate::text::{
    append, append_i64, chars_to_string, count_char, is_prefix, last_index_of, parse_i64, parse_i64_spec, rfind_char,
    signed_decimal, starts_with, to_chars, trim_end_char, trim_end_matches_char, trim_start_char,
    trim_start_matches_char, views,
};

verus! {

/// Why a parameter request failed.
#[derive(Debug, Clone, Copy, PartialEq, Eq)]
pub enum SsmErrorKind {
    ParameterAlreadyExists,
    ParameterNotFound,
    ParameterVersionNotFound,
    ValidationException,
    InvalidAction,
    BadRequest,
}

/// A failed parameter request: the reason and a message.
#[derive(Debug)]
pub struct SsmError {
    pub kind: SsmErrorKind,
    pub message: String,
}

impl SsmErrorKind {
    /// The error code, as text.
    pub open spec fn code_spec(&self) -> Seq<char> {
        match self {
            SsmErrorKind::ParameterAlreadyExists => "ParameterAlreadyExists"@,
            SsmErrorKind::ParameterNotFound => "ParameterNotFound"@,
            SsmErrorKind::ParameterVersionNotFound => "ParameterVersionNotFound"@,
            SsmErrorKind::ValidationException => "ValidationException"@,
            SsmErrorKind::InvalidAction => "InvalidAction"@,
            SsmErrorKind::BadRequest => "BadRequest"@,
        }
    }

    /// The error code.
    pub fn code(&self) -> (r: &'static str)
        ensures
            r@ == self.code_spec(),
    {
        match self {
            SsmErrorKind::ParameterAlreadyExists => "ParameterAlreadyExists",
            SsmErrorKind::ParameterNotFound => "ParameterNotFound",
            SsmErrorKind::ParameterVersionNotFound => "ParameterVersionNotFound",
            SsmErrorKind::ValidationException => "ValidationException",
            SsmErrorKind::InvalidAction => "InvalidAction",
            SsmErrorKind::BadRequest => "BadRequest",
        }
    }

    /// The HTTP status: 404 for what does not exist, 400 otherwise.
    pub fn status(&self) -> (r: u16)
        ensures
            r == if *self == SsmErrorKind::ParameterNotFound || *self == SsmErrorKind::ParameterVersionNotFound {
                404u16
            } else {
                400u16
            },
    {
        match self {
            SsmErrorKind::ParameterNotFound | SsmErrorKind::ParameterVersionNotFound => 404,
            _ => 400,
        }
    }
}

/// `s` followed by `t`, as a new string.
fn concat(s: &str, t: &str) -> (r: String)
    ensures
        r@ == s@ + t@,
{
    let mut r = String::new();
    append(&mut r, s);
    append(&mut r, t);
    r
}

/// The ARN of a parameter: the name's leading `/`s dropped.
pub open spec fn parameter_arn(region: Seq<char>, account: Seq<char>, name: Seq<char>) -> Seq<char> {
    "arn:aws:ssm:"@ + region + ":"@ + account + ":parameter/"@ + trim_start_char(name, '/')
}

/// A name with an optional `:version` suffix, split: the part before the last
/// `:` and the version, when what follows it is a number.
pub open spec fn split_version(s: Seq<char>) -> (Seq<char>, Option<i64>) {
    match last_index_of(s, ':') {
        Some(p) => match parse_i64_spec(s.subrange(p + 1, s.len() as int)) {
            Some(v) => (s.subrange(0, p), Some(v)),
            None => (s, None),
        },
        None => (s, None),
    }
}

/// The first parameter of `h` with version `v`.
pub open spec fn find_version(h: Seq<ParamView>, v: i64) -> Option<ParamView>
    decreases h.len(),
{
    if h.len() == 0 {
        None
    } else if h[0].version == v {
        Some(h[0])
    } else {
        find_version(h.drop_first(), v)
    }
}

/// Whether `name` lies under `prefix` for a path query: directly below it, or
/// (when not recursive) with no further level.
pub open spec fn under_path(name: Seq<char>, prefix: Seq<char>, recursive: bool) -> bool {
    &&& is_prefix(prefix, name)
    &&& {
        let suffix = name.subrange(prefix.len() as int, name.len() as int);
        &&& (suffix.len() == 0 || suffix[0] == '/')
        &&& (recursive || count_char(trim_start_char(suffix, '/'), '/') == 0)
    }
}

/// The parameters of `ps` under `prefix`, in order, stopping once `max` are taken.
pub open spec fn path_matches(ps: Seq<ParamView>, prefix: Seq<char>, recursive: bool, max: nat) -> Seq<ParamView>
    decreases ps.len(),
{
    if ps.len() == 0 {
        Seq::empty()
    } else {
        let prev = path_matches(ps.drop_last(), prefix, recursive, max);
        if prev.len() < max && under_path(ps.last().name, prefix, recursive) {
            prev.push(ps.last())
        } else {
            prev
        }
    }
}

/// `max_results` or 10, kept between 1 and 50.
pub open spec fn page_size(max_results: Option<usize>) -> nat {
    let m: nat = match max_results { Some(m) => m as nat, None => 10 };
    if m < 1 { 1 } else if m > 50 { 50 } else { m }
}

/// The version after `v` (it stays at the largest `i64`).
pub open spec fn next_version(v: i64) -> i64 {
    if v < i64::MAX { (v + 1) as i64 } else { v }
}

/// The history of `name`, or none.
pub open spec fn history_or_empty(h: Map<Seq<char>, Seq<ParamView>>, name: Seq<char>) -> Seq<ParamView> {
    if h.contains_key(name) { h[name] } else { Seq::empty() }
}

/// The type a put asks for (`String` when none is named).
pub open spec fn requested_type(req: PutParameterRequest) -> ParameterType {
    ParameterType::of_name(match req.parameter_type { Some(t) => t@, None => "String"@ })
}

/// The text of an optional string, or a default.
pub open spec fn text_or(o: Option<String>, d: Seq<char>) -> Seq<char> {
    match o { Some(s) => s@, None => d }
}

/// Once `max` parameters are taken, later ones change nothing.
pub proof fn lemma_path_matches_full(ps: Seq<ParamView>, i: int, prefix: Seq<char>, recursive: bool, max: nat)
    requires
        0 <= i <= ps.len(),
        path_matches(ps.subrange(0, i), prefix, recursive, max).len() >= max,
    ensures
        path_matches(ps, prefix, recursive, max) == path_matches(ps.subrange(0, i), prefix, recursive, max),
    decreases ps.len() - i,
{
    if i == ps.len() {
        assert(ps.subrange(0, i) =~= ps);
    } else {
        assert(ps.drop_last().subrange(0, i) =~= ps.subrange(0, i));
        lemma_path_matches_full(ps.drop_last(), i, prefix, recursive, max);
        lemma_path_matches_len(ps.drop_last(), prefix, recursive, max);
    }
}

/// A path listing never grows past `max` by more than it started with.
pub proof fn lemma_path_matches_len(ps: Seq<ParamView>, prefix: Seq<char>, recursive: bool, max: nat)
    ensures
        path_matches(ps, prefix, recursive, max).len() <= ps.len(),
    decreases ps.len(),
{
    if ps.len() > 0 {
        lemma_path_matches_len(ps.drop_last(), prefix, recursive, max);
    }
}

/// A parameter one level below a path, `prefix/n` with no `/` in `n`, is found
/// by a path query on that path, recursive or not; one two levels below,
/// `prefix/a/b`, is found only by a recursive query.
pub proof fn law_path_query_levels(prefix: Seq<char>, a: Seq<char>, b: Seq<char>)
    requires
        !a.contains('/'),
        a.len() > 0,
    ensures
        under_path(prefix + seq!['/'] + a, prefix, false),
        under_path(prefix + seq!['/'] + a, prefix, true),
        under_path(prefix + seq!['/'] + a + seq!['/'] + b, prefix, true),
        !under_path(prefix + seq!['/'] + a + seq!['/'] + b, prefix, false),
{
    let name = prefix + seq!['/'] + a;
    assert(name.subrange(0, prefix.len() as int) =~= prefix);
    let suffix = name.subrange(prefix.len() as int, name.len() as int);
    assert(suffix =~= seq!['/'] + a);
    assert(suffix.drop_first() =~= a);
    assert(a[0] != '/') by {
        if a[0] == '/' {
            assert(a.contains('/'));
        }
    }
    assert(trim_start_char(a, '/') == a);
    assert(trim_start_char(suffix, '/') == a);
    lemma_count_char_contains(a, '/');
    let deep = prefix + seq!['/'] + a + seq!['/'] + b;
    assert(deep.subrange(0, prefix.len() as int) =~= prefix);
    let ds = deep.subrange(prefix.len() as int, deep.len() as int);
    assert(ds =~= seq!['/'] + (a + seq!['/'] + b));
    assert(ds.drop_first() =~= a + seq!['/'] + b);
    let rest = a + seq!['/'] + b;
    assert(rest[0] == a[0]);
    assert(trim_start_char(rest, '/') == rest);
    assert(trim_start_char(ds, '/') == rest);
    assert(rest[a.len() as int] == '/');
    assert(rest.contains('/'));
    lemma_count_char_contains(rest, '/');
}

/// Whether `name` lies under `prefix` for a path query.
fn under_path_exec(name: &str, prefix: &str, recursive: bool) -> (r: bool)
    ensures
        r == under_path(name@, prefix@, recursive),
{
    if !starts_with(name, prefix) {
        return false;
    }
    let v = to_chars(name);
    let w = to_chars(prefix);
    let suffix = chars_to_string(v.as_slice(), w.len(), v.len());
    let sv = to_chars(suffix.as_str());
    if sv.len() > 0 && sv[0] != '/' {
        return false;
    }
    if !recursive {
        let rest = trim_start_matches_char(suffix.as_str(), '/');
        if crate::text::contains_char(rest.as_str(), '/') {
            proof { lemma_count_char_contains(rest@, '/'); }
            return false;
        }
        proof { lemma_count_char_contains(rest@, '/'); }
    }
    true
}

/// A character occurs in a sequence exactly when its count there is not zero.
pub proof fn lemma_count_char_contains(s: Seq<char>, c: char)
    ensures
        (count_char(s, c) == 0) == !s.contains(c),
    decreases s.len(),
{
    if s.len() > 0 {
        lemma_count_char_contains(s.drop_last(), c);
        if s.drop_last().contains(c) {
            let j = choose|j: int| 0 <= j < s.drop_last().len() && s.drop_last()[j] == c;
            assert(s[j] == c);
        }
        if s.contains(c) && s.last() != c {
            let j = choose|j: int| 0 <= j < s.len() && s[j] == c;
            assert(s.drop_last()[j] == c);
        }
        assert(s[s.len() - 1] == s.last());
    }
}

/// The names a batch removal removes: those present, at their first occurrence.
pub open spec fn deleted_names(present: Set<Seq<char>>, names: Seq<Seq<char>>) -> Seq<Seq<char>>
    decreases names.len(),
{
    if names.len() == 0 {
        Seq::empty()
    } else {
        let prev = deleted_names(present, names.drop_last());
        if present.contains(names.last()) && !names.drop_last().contains(names.last()) {
            prev.push(names.last())
        } else {
            prev
        }
    }
}

/// The names a batch removal reports as not there.
pub open spec fn invalid_names(present: Set<Seq<char>>, names: Seq<Seq<char>>) -> Seq<Seq<char>>
    decreases names.len(),
{
    if names.len() == 0 {
        Seq::empty()
    } else {
        let prev = invalid_names(present, names.drop_last());
        if present.contains(names.last()) && !names.drop_last().contains(names.last()) {
            prev
        } else {
            prev.push(names.last())
        }
    }
}

/// The parameters a snapshot restores: each record's parameter under its name,
/// a later record replacing an earlier one of the same name.
pub open spec fn loaded_params(recs: Seq<ParameterRecordSnapshot>) -> Map<Seq<char>, ParamView>
    decreases recs.len(),
{
    if recs.len() == 0 {
        Map::empty()
    } else {
        loaded_params(recs.drop_last()).insert(recs.last().current.name@, recs.last().current@)
    }
}

/// The histories a snapshot restores: each record's versions, when it has any.
pub open spec fn loaded_history(recs: Seq<ParameterRecordSnapshot>) -> Map<Seq<char>, Seq<ParamView>>
    decreases recs.len(),
{
    if recs.len() == 0 {
        Map::empty()
    } else if recs.last().history@.len() > 0 {
        loaded_history(recs.drop_last()).insert(recs.last().current.name@, param_views(recs.last().history@))
    } else {
        loaded_history(recs.drop_last())
    }
}

/// The parameters named in `asked` that exist, in request order.
pub open spec fn found_params(ps: Map<Seq<char>, ParamView>, asked: Seq<Seq<char>>) -> Seq<ParamView>
    decreases asked.len(),
{
    if asked.len() == 0 {
        Seq::empty()
    } else {
        let prev = found_params(ps, asked.drop_last());
        if ps.contains_key(asked.last()) { prev.push(ps[asked.last()]) } else { prev }
    }
}

/// The names in `asked` that do not exist, in request order.
pub open spec fn missing_names(ps: Map<Seq<char>, ParamView>, asked: Seq<Seq<char>>) -> Seq<Seq<char>>
    decreases asked.len(),
{
    if asked.len() == 0 {
        Seq::empty()
    } else {
        let prev = missing_names(ps, asked.drop_last());
        if ps.contains_key(asked.last()) { prev } else { prev.push(asked.last()) }
    }
}

/// The parameter store.
pub struct SsmEngine {
    parameters: Table<Parameter>,
    history: Table<Vec<Parameter>>,
    account_id: String,
    region: String,
}

impl SsmEngine {
    /// The current parameters, by name.
    pub closed spec fn params(&self) -> Map<Seq<char>, ParamView> {
        self.parameters@.map_values(|p: Parameter| p@)
    }

    /// The current parameters, in ascending name order.
    pub closed spec fn param_list(&self) -> Seq<ParamView> {
        param_views(self.parameters.vals())
    }

    /// The names of the current parameters, in ascending order.
    pub closed spec fn names(&self) -> Seq<Seq<char>> {
        self.parameters.keys()
    }

    /// Every stored version of each parameter, oldest first.
    pub closed spec fn history(&self) -> Map<Seq<char>, Seq<ParamView>> {
        self.history@.map_values(|h: Vec<Parameter>| param_views(h@))
    }

    /// The account the store answers for.
    pub closed spec fn account(&self) -> Seq<char> {
        self.account_id@
    }

    /// The region the store answers for.
    pub closed spec fn home_region(&self) -> Seq<char> {
        self.region@
    }

    /// Both tables are well formed.
    pub closed spec fn wf(&self) -> bool {
        self.parameters.wf() && self.history.wf()
    }

    /// The ascending list and the map hold the same parameters.
    pub proof fn lemma_param_list(&self)
        requires
            self.wf(),
        ensures
            self.param_list().len() == self.names().len(),
            forall|i: int| 0 <= i < self.names().len() ==> #[trigger] self.params().contains_key(self.names()[i])
                && self.params()[self.names()[i]] == self.param_list()[i],
            forall|k: Seq<char>| #[trigger] self.params().contains_key(k) ==> self.names().contains(k),
    {
        self.parameters.lemma_wf();
        assert forall|k: Seq<char>| #[trigger] self.params().contains_key(k) implies self.names().contains(k) by {
            assert(self.parameters@.contains_key(k));
            let i = choose|i: int| 0 <= i < self.parameters.keys().len() && self.parameters.keys()[i] == k;
            assert(self.names()[i] == k);
        }
    }

    /// An empty store for an account and region.
    pub fn new(account_id: String, region: String) -> (s: Self)
        ensures
            s.wf(),
            s.params() == Map::<Seq<char>, ParamView>::empty(),
            s.history() == Map::<Seq<char>, Seq<ParamView>>::empty(),
            s.account() == account_id@,
            s.home_region() == region@,
    {
        let s = SsmEngine { parameters: Table::new(), history: Table::new(), account_id, region };
        assert(s.params() =~= Map::<Seq<char>, ParamView>::empty());
        assert(s.history() =~= Map::<Seq<char>, Seq<ParamView>>::empty());
        s
    }

    /// The ARN of the parameter `name`.
    pub fn format_parameter_arn(&self, name: &str) -> (r: String)
        ensures
            r@ == parameter_arn(self.home_region(), self.account(), name@),
    {
        let clean = trim_start_matches_char(name, '/');
        let mut r = String::new();
        append(&mut r, "arn:aws:ssm:");
        append(&mut r, self.region.as_str());
        append(&mut r, ":");
        append(&mut r, self.account_id.as_str());
        append(&mut r, ":parameter/");
        append(&mut r, clean.as_str());
        assert(r@ =~= parameter_arn(self.home_region(), self.account(), name@));
        r
    }
    /// Creates a parameter (version 1), or replaces its value and settings when
    /// `overwrite` is set (next version); every version is kept in the history.
    pub fn put_parameter(&mut self, req: PutParameterRequest) -> (r: Result<i64, SsmError>)
        requires
            old(self).wf(),
        ensures
            final(self).wf(),
            final(self).account() == old(self).account(),
            final(self).home_region() == old(self).home_region(),
            ({
                let name = req.name@;
                let overwrite = req.overwrite == Some(true);
                match r {
                    Err(e) => {
                        &&& old(self).params().contains_key(name) && !overwrite
                        &&& e.kind == SsmErrorKind::ParameterAlreadyExists
                        &&& e.message@ == "The parameter already exists: "@ + name
                        &&& final(self).params() == old(self).params()
                        &&& final(self).history() == old(self).history()
                    },
                    Ok(v) => {
                        let np = final(self).params()[name];
                        &&& final(self).params().contains_key(name)
                        &&& final(self).params() == old(self).params().insert(name, np)
                        &&& final(self).history() == old(self).history().insert(name, history_or_empty(old(self).history(), name).push(np))
                        &&& np.version == v
                        &&& np.value == req.value@
                        &&& np.parameter_type == requested_type(req)
                        &&& np.description == opt_text(req.description)
                        &&& np.key_id == opt_text(req.key_id)
                        &&& np.tier == text_or(req.tier, "Standard"@)
                        &&& np.data_type == text_or(req.data_type, "text"@)
                        &&& if old(self).params().contains_key(name) {
                            &&& overwrite
                            &&& v == next_version(old(self).params()[name].version)
                            &&& np.name == old(self).params()[name].name
                            &&& np.arn == old(self).params()[name].arn
                        } else {
                            &&& v == 1
                            &&& np.name == name
                            &&& np.arn == parameter_arn(old(self).home_region(), old(self).account(), name)
                        }
                    },
                }
            }),
    {
        let ghost old_self = *old(self);
        let ty = match &req.parameter_type {
            Some(t) => ParameterType::from_name(t.as_str()),
            None => ParameterType::from_name("String"),
        };
        let overwrite = match req.overwrite { Some(b) => b, None => false };
        let tier = match req.tier { Some(t) => t, None => "Standard".to_owned() };
        let data_type = match req.data_type { Some(d) => d, None => "text".to_owned() };
        let name = req.name;
        let np = match self.parameters.remove(name.as_str()) {
            Some(mut existing) => {
                if !overwrite {
                    let ghost e = existing;
                    self.parameters.insert(name.clone(), existing);
                    proof {
                        assert(self.parameters@ =~= old_self.parameters@);
                        assert(self.params() =~= old_self.params());
                    }
                    return Err(SsmError {
                        kind: SsmErrorKind::ParameterAlreadyExists,
                        message: concat("The parameter already exists: ", name.as_str()),
                    });
                }
                existing.version = if existing.version < 9223372036854775807i64 { existing.version + 1 } else { existing.version };
                existing.value = req.value;
                existing.parameter_type = ty;
                existing.description = req.description;
                existing.tier = tier;
                existing.data_type = data_type;
                existing.key_id = req.key_id;
                existing.last_modified_date = now_seconds();
                existing
            },
            None => {
                let arn = self.format_parameter_arn(name.as_str());
                Parameter {
                    name: name.clone(),
                    parameter_type: ty,
                    value: req.value,
                    version: 1,
                    last_modified_date: now_seconds(),
                    arn,
                    data_type,
                    description: req.description,
                    key_id: req.key_id,
                    tier,
                }
            },
        };
        let version = np.version;
        let copy = np.copy();
        let ghost gp = np;
        let mut h = match self.history.remove(name.as_str()) {
            Some(h) => h,
            None => Vec::new(),
        };
        let ghost oh = h@;
        h.push(copy);
        self.history.insert(name.clone(), h);
        self.parameters.insert(name, np);
        proof {
            assert(self.parameters@ =~= old_self.parameters@.insert(req.name@, gp));
            assert(self.params() =~= old_self.params().insert(req.name@, gp@));
            assert(param_views(oh.push(copy)) =~= param_views(oh).push(gp@));
            assert(param_views(oh) == history_or_empty(old_self.history(), req.name@));
            assert(self.history() =~= old_self.history().insert(req.name@, history_or_empty(old_self.history(), req.name@).push(gp@)));
        }
        Ok(version)
    }

    /// A parameter by name, or one of its versions when the name ends in
    /// `:<version>`.
    pub fn get_parameter(&self, name_or_version: &str, with_decryption: bool) -> (r: Result<Parameter, SsmError>)
        requires
            self.wf(),
        ensures
            ({
                let (name, ver) = split_version(name_or_version@);
                match ver {
                    Some(v) => match r {
                        Ok(p) => self.history().contains_key(name) && find_version(self.history()[name], v) == Some(p@),
                        Err(e) => (!self.history().contains_key(name) || find_version(self.history()[name], v) is None)
                            && e.kind == SsmErrorKind::ParameterVersionNotFound
                            && e.message@ == "Parameter "@ + name + " version "@ + signed_decimal(v as int) + " not found"@,
                    },
                    None => match r {
                        Ok(p) => self.params().contains_key(name) && p@ == self.params()[name],
                        Err(e) => !self.params().contains_key(name) && e.kind == SsmErrorKind::ParameterNotFound
                            && e.message@ == "Parameter "@ + name + " not found."@,
                    },
                }
            }),
    {
        let v = to_chars(name_or_version);
        let n = v.len();
        let mut name = name_or_version.to_owned();
        let mut ver: Option<i64> = None;
        match rfind_char(&v, ':') {
            Some(pos) => {
                assert(pos < n);
                let tail = chars_to_string(v.as_slice(), pos + 1, n);
                match parse_i64(tail.as_str()) {
                    Some(x) => {
                        name = chars_to_string(v.as_slice(), 0, pos);
                        ver = Some(x);
                    },
                    None => {},
                }
            },
            None => {},
        }
        assert(name@ == split_version(name_or_version@).0);
        assert(ver == split_version(name_or_version@).1);
        match ver {
            Some(target) => {
                match self.history.get(name.as_str()) {
                    Some(h) => {
                        let ghost hv = param_views(h@);
                        assert(self.history().contains_key(name@) && self.history()[name@] == hv);
                        let mut i: usize = 0;
                        assert(hv.subrange(0, hv.len() as int) =~= hv);
                        while i < h.len()
                            invariant
                                hv == param_views(h@),
                                self.history().contains_key(name@),
                                self.history()[name@] == hv,
                                split_version(name_or_version@) == (name@, Some(target)),
                                i <= h@.len(),
                                find_version(hv, target) == find_version(hv.subrange(i as int, hv.len() as int), target),
                            decreases h@.len() - i,
                        {
                            let ghost rest = hv.subrange(i as int, hv.len() as int);
                            assert(rest[0] == h@[i as int]@);
                            if h[i].version == target {
                                return Ok(h[i].copy());
                            }
                            assert(rest.drop_first() =~= hv.subrange(i + 1, hv.len() as int));
                            i = i + 1;
                        }
                    },
                    None => {},
                }
                let mut m = concat("Parameter ", name.as_str());
                append(&mut m, " version ");
                append_i64(&mut m, target);
                append(&mut m, " not found");
                Err(SsmError { kind: SsmErrorKind::ParameterVersionNotFound, message: m })
            },
            None => match self.parameters.get(name.as_str()) {
                Some(p) => Ok(p.copy()),
                None => {
                    let mut m = concat("Parameter ", name.as_str());
                    append(&mut m, " not found.");
                    Err(SsmError { kind: SsmErrorKind::ParameterNotFound, message: m })
                },
            },
        }
    }

    /// The parameters named, in request order, and the names not found.
    pub fn get_parameters(&self, names: &[String], with_decryption: bool) -> (r: Result<(Vec<Parameter>, Vec<String>), SsmError>)
        requires
            self.wf(),
        ensures
            r matches Ok((found, invalid)) && param_views(found@) == found_params(self.params(), views(names@))
                && views(invalid@) == missing_names(self.params(), views(names@)),
    {
        let ghost asked = views(names@);
        let mut found: Vec<Parameter> = Vec::new();
        let mut invalid: Vec<String> = Vec::new();
        let mut i: usize = 0;
        while i < names.len()
            invariant
                self.wf(),
                asked == views(names@),
                i <= asked.len(),
                param_views(found@) == found_params(self.params(), asked.subrange(0, i as int)),
                views(invalid@) == missing_names(self.params(), asked.subrange(0, i as int)),
            decreases asked.len() - i,
        {
            assert(asked.subrange(0, i + 1).drop_last() =~= asked.subrange(0, i as int));
            let ghost bf = found@;
            let ghost bi = invalid@;
            match self.parameters.get(names[i].as_str()) {
                Some(p) => {
                    found.push(p.copy());
                    assert(param_views(found@) =~= param_views(bf).push(p@));
                },
                None => {
                    invalid.push(names[i].clone());
                    assert(views(invalid@) =~= views(bi).push(asked[i as int]));
                },
            }
            i = i + 1;
        }
        assert(asked.subrange(0, asked.len() as int) =~= asked);
        Ok((found, invalid))
    }

    /// The parameters under a path, in ascending name order: all levels below
    /// it, or (when not recursive) one level; at most `max_results` (10 by
    /// default, kept between 1 and 50).
    pub fn get_parameters_by_path(
        &self,
        path: &str,
        recursive: bool,
        with_decryption: bool,
        max_results: Option<usize>,
    ) -> (r: Result<Vec<Parameter>, SsmError>)
        requires
            self.wf(),
        ensures
            r matches Ok(list) && param_views(list@) == path_matches(
                self.param_list(), trim_end_char(path@, '/'), recursive, page_size(max_results),
            ),
    {
        let prefix = trim_end_matches_char(path, '/');
        let m: usize = match max_results { Some(m) => m, None => 10 };
        let max: usize = if m < 1 { 1 } else if m > 50 { 50 } else { m };
        let ghost ps = self.param_list();
        let ghost pfx = prefix@;
        let n = self.parameters.len();
        proof { self.parameters.lemma_wf(); }
        let mut results: Vec<Parameter> = Vec::new();
        let mut i: usize = 0;
        let mut full = false;
        while i < n && !full
            invariant
                self.wf(),
                n == self.parameters.keys().len(),
                ps == self.param_list(),
                ps.len() == n,
                pfx == prefix@,
                max == page_size(max_results),
                i <= n,
                full == (results@.len() >= max),
                param_views(results@) == path_matches(ps.subrange(0, i as int), pfx, recursive, max as nat),
            decreases n - i, if full { 0int } else { 1int },
        {
            let (name, p) = self.parameters.entry(i);
            assert(ps[i as int] == p@);
            assert(ps.subrange(0, i + 1).drop_last() =~= ps.subrange(0, i as int));
            let keep = under_path_exec(p.name.as_str(), prefix.as_str(), recursive);
            let ghost before = results@;
            if keep {
                results.push(p.copy());
                assert(param_views(results@) =~= param_views(before).push(p@));
                if results.len() >= max {
                    full = true;
                }
            }
            i = i + 1;
        }
        proof {
            if full {
                lemma_path_matches_full(ps, i as int, pfx, recursive, max as nat);
            } else {
                assert(ps.subrange(0, n as int) =~= ps);
            }
        }
        Ok(results)
    }

    /// Removes a parameter and its history.
    pub fn delete_parameter(&mut self, name: &str) -> (r: Result<(), SsmError>)
        requires
            old(self).wf(),
        ensures
            final(self).wf(),
            final(self).account() == old(self).account(),
            final(self).home_region() == old(self).home_region(),
            match r {
                Ok(()) => old(self).params().contains_key(name@)
                    && final(self).params() == old(self).params().remove(name@)
                    && final(self).history() == old(self).history().remove(name@),
                Err(e) => !old(self).params().contains_key(name@) && e.kind == SsmErrorKind::ParameterNotFound
                    && e.message@ == "Parameter "@ + name@ + " not found."@
                    && final(self).params() == old(self).params() && final(self).history() == old(self).history(),
            },
    {
        let ghost old_self = *old(self);
        match self.parameters.remove(name) {
            None => {
                assert(self.parameters@ =~= old_self.parameters@);
                assert(self.params() =~= old_self.params());
                let mut m = concat("Parameter ", name);
                append(&mut m, " not found.");
                Err(SsmError { kind: SsmErrorKind::ParameterNotFound, message: m })
            },
            Some(_) => {
                let _ = self.history.remove(name);
                assert(self.params() =~= old_self.params().remove(name@));
                assert(self.history() =~= old_self.history().remove(name@));
                Ok(())
            },
        }
    }

    /// Removes the named parameters one after the other: the names removed,
    /// and those that were not there (a name given twice is not there the
    /// second time).
    pub fn delete_parameters(&mut self, names: &[String]) -> (r: Result<(Vec<String>, Vec<String>), SsmError>)
        requires
            old(self).wf(),
        ensures
            final(self).wf(),
            final(self).account() == old(self).account(),
            final(self).home_region() == old(self).home_region(),
            r matches Ok((deleted, invalid)) && {
                &&& views(deleted@) == deleted_names(old(self).params().dom(), views(names@))
                &&& views(invalid@) == invalid_names(old(self).params().dom(), views(names@))
                &&& final(self).params() == old(self).params().remove_keys(views(names@).to_set())
                &&& final(self).history() == old(self).history().remove_keys(views(deleted@).to_set())
            },
    {
        let ghost old_self = *old(self);
        let ghost asked = views(names@);
        let ghost present = old_self.params().dom();
        let mut deleted: Vec<String> = Vec::new();
        let mut invalid: Vec<String> = Vec::new();
        let mut i: usize = 0;
        while i < names.len()
            invariant
                self.wf(),
                asked == views(names@),
                present == old_self.params().dom(),
                i <= asked.len(),
                self.account_id == old_self.account_id,
                self.region == old_self.region,
                views(deleted@) == deleted_names(present, asked.subrange(0, i as int)),
                views(invalid@) == invalid_names(present, asked.subrange(0, i as int)),
                self.params() == old_self.params().remove_keys(asked.subrange(0, i as int).to_set()),
                self.history() == old_self.history().remove_keys(views(deleted@).to_set()),
            decreases asked.len() - i,
        {
            let ghost pre = asked.subrange(0, i as int);
            let ghost n = asked[i as int];
            let ghost bd = deleted@;
            let ghost bi = invalid@;
            let ghost before = *self;
            proof {
                assert(asked.subrange(0, i + 1) =~= pre.push(n));
                assert(asked.subrange(0, i + 1).drop_last() =~= pre);
                pre.lemma_push_to_set_commute(n);
                assert(before.params().contains_key(n) == (present.contains(n) && !pre.to_set().contains(n)));
            }
            match self.parameters.remove(names[i].as_str()) {
                Some(_) => {
                    let _ = self.history.remove(names[i].as_str());
                    deleted.push(names[i].clone());
                    proof {
                        assert(views(deleted@) =~= views(bd).push(n));
                        views(bd).lemma_push_to_set_commute(n);
                        lemma_map_values_remove(before.parameters@, n, |p: Parameter| p@);
                        lemma_map_values_remove(before.history@, n, |h: Vec<Parameter>| param_views(h@));
                        assert(self.params() =~= old_self.params().remove_keys(pre.push(n).to_set()));
                        assert(self.history() =~= old_self.history().remove_keys(views(deleted@).to_set()));
                    }
                },
                None => {
                    invalid.push(names[i].clone());
                    proof {
                        assert(views(invalid@) =~= views(bi).push(n));
                        assert(self.parameters@ =~= before.parameters@);
                        assert(self.params() =~= old_self.params().remove_keys(pre.push(n).to_set()));
                    }
                },
            }
            i = i + 1;
        }
        assert(asked.subrange(0, asked.len() as int) =~= asked);
        Ok((deleted, invalid))
    }

    /// Every current parameter, in ascending name order.
    pub fn describe_parameters(&self) -> (r: Result<Vec<Parameter>, SsmError>)
        requires
            self.wf(),
        ensures
            r matches Ok(list) && param_views(list@) == self.param_list(),
    {
        let n = self.parameters.len();
        let mut list: Vec<Parameter> = Vec::new();
        let mut i: usize = 0;
        while i < n
            invariant
                self.wf(),
                n == self.parameters.keys().len(),
                i <= n,
                list@.len() == i,
                forall|j: int| 0 <= j < i ==> #[trigger] list@[j]@ == self.param_list()[j],
            decreases n - i,
        {
            let (_, p) = self.parameters.entry(i);
            proof { self.parameters.lemma_wf(); }
            assert(self.param_list()[i as int] == p@);
            list.push(p.copy());
            i = i + 1;
        }
        proof { self.parameters.lemma_wf(); }
        assert(param_views(list@) =~= self.param_list());
        Ok(list)
    }

    /// Forgets every parameter and version.
    pub fn reset(&mut self)
        requires
            old(self).wf(),
        ensures
            final(self).wf(),
            final(self).params() == Map::<Seq<char>, ParamView>::empty(),
            final(self).history() == Map::<Seq<char>, Seq<ParamView>>::empty(),
            final(self).account() == old(self).account(),
            final(self).home_region() == old(self).home_region(),
    {
        self.parameters.clear();
        self.history.clear();
        assert(self.params() =~= Map::<Seq<char>, ParamView>::empty());
        assert(self.history() =~= Map::<Seq<char>, Seq<ParamView>>::empty());
    }

    /// Each current parameter (ascending) with its versions, for saving.
    pub fn dump_state(&self) -> (snap: SsmSnapshot)
        requires
            self.wf(),
        ensures
            snap.parameters@.len() == self.names().len(),
            forall|i: int| 0 <= i < snap.parameters@.len() ==> {
                &&& (#[trigger] snap.parameters@[i]).current@ == self.param_list()[i]
                &&& param_views(snap.parameters@[i].history@) == history_or_empty(self.history(), self.names()[i])
            },
    {
        let n = self.parameters.len();
        let mut list: Vec<ParameterRecordSnapshot> = Vec::new();
        let mut i: usize = 0;
        while i < n
            invariant
                self.wf(),
                n == self.parameters.keys().len(),
                i <= n,
                list@.len() == i,
                forall|j: int| 0 <= j < i ==> {
                    &&& (#[trigger] list@[j]).current@ == self.param_list()[j]
                    &&& param_views(list@[j].history@) == history_or_empty(self.history(), self.names()[j])
                },
            decreases n - i,
        {
            let (name, p) = self.parameters.entry(i);
            proof { self.parameters.lemma_wf(); }
            assert(self.param_list()[i as int] == p@);
            let hist = match self.history.get(name.as_str()) {
                Some(h) => copy_params(h),
                None => Vec::new(),
            };
            assert(param_views(hist@) =~= history_or_empty(self.history(), self.names()[i as int]));
            list.push(ParameterRecordSnapshot { current: p.copy(), history: hist });
            i = i + 1;
        }
        SsmSnapshot { parameters: list }
    }

    /// Replaces everything with a snapshot: each record's parameter under its
    /// name, with its versions when it has any.
    pub fn load_state(&mut self, snapshot: SsmSnapshot)
        requires
            old(self).wf(),
        ensures
            final(self).wf(),
            final(self).account() == old(self).account(),
            final(self).home_region() == old(self).home_region(),
            final(self).params() == loaded_params(snapshot.parameters@),
            final(self).history() == loaded_history(snapshot.parameters@),
    {
        self.parameters.clear();
        self.history.clear();
        let ghost recs = snapshot.parameters@;
        let mut rest = snapshot.parameters;
        proof {
            assert(self.params() =~= loaded_params(Seq::<ParameterRecordSnapshot>::empty()));
            assert(self.history() =~= loaded_history(Seq::<ParameterRecordSnapshot>::empty()));
        }
        let mut i: usize = 0;
        let n = rest.len();
        assert(rest@ =~= recs.subrange(0, n as int));
        while i < n
            invariant
                self.wf(),
                self.account_id == old(self).account_id,
                self.region == old(self).region,
                n == recs.len(),
                i <= n,
                rest@ == recs.subrange(i as int, n as int),
                self.params() == loaded_params(recs.subrange(0, i as int)),
                self.history() == loaded_history(recs.subrange(0, i as int)),
            decreases n - i,
        {
            let rec = rest.remove(0);
            assert(rec == recs[i as int]);
            assert(rest@ =~= recs.subrange(i + 1, n as int));
            assert(recs.subrange(0, i + 1).drop_last() =~= recs.subrange(0, i as int));
            let ghost before = *self;
            let name = rec.current.name.clone();
            let ghost cur = rec.current;
            let ghost hv = rec.history@;
            self.parameters.insert(name.clone(), rec.current);
            proof {
                lemma_map_values_insert(before.parameters@, name@, cur, |p: Parameter| p@);
            }
            if rec.history.len() > 0 {
                self.history.insert(name, rec.history);
                proof {
                    lemma_map_values_insert(before.history@, cur.name@, rec.history, |h: Vec<Parameter>| param_views(h@));
                }
            }
            i = i + 1;
        }
    }

}

} // verus!
