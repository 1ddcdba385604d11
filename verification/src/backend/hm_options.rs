//! Home Manager options.
//!
//! `nix eval --json` on the user's Home Manager flake gives the schema of the options below an
//! attribute path such as `programs.neovim`. The options read from it are kept in memory.

use crate::backend::nix_value::{nix_expression, nix_value};
use crate::command::{
    hm_config, join_path, opt_str, user_name, user_or_default, CommandLine, CommandOutput,
    CommandView,
};
use crate::json::{
    bytes_json, field, find_member, parse_bytes, text_field, text_or_empty, Json, JsonTree,
    MemberTree,
};
use crate::shared::share;
use crate::text::{
    contains, from_utf8_lossy, has_part, has_prefix, lossy_text, occurs_at, opt_text,
    patterns_part_texts, pieces, same, separators_part_texts, split_stripped, starts_with,
    strip_all, stripped, stripping_takes_copies_off, texts, trim_start_matches,
};
use std::sync::Arc;
use vstd::hash_map::StringHashMap;
use vstd::prelude::*;
use vstd::string::*;

verus! {

/// A single Home Manager option.
#[derive(Clone, Debug)]
pub struct HmOption {
    /// Dot-separated path, e.g. "programs.neovim.enable"
    pub path: String,
    /// Human-readable description
    pub description: String,
    /// The type of the option's value
    pub option_type: OptionType,
    /// Default value as a Nix expression string, if any
    pub default: Option<String>,
    /// Current value as a Nix expression string, if declared in the user's config
    pub current_value: Option<String>,
}

/// The type of a Home Manager option, which decides how the option is edited.
#[derive(Debug)]
pub enum OptionType {
    /// A toggle
    Bool,
    /// A text field
    String,
    /// A text field for a file path
    Path,
    /// One of fixed choices
    Enum(Vec<String>),
    /// A number without decimals
    Int,
    /// A number with decimals
    Float,
    /// A list of values
    ListOf(Box<OptionType>),
    /// A nested section
    Attrs,
    /// Any other type
    Unknown(String),
}

/// The options below an attribute path.
#[derive(Clone, Debug, Default)]
pub struct OptionTree {
    pub options: Vec<HmOption>,
}

/// The mathematical content of an `OptionType`.
pub enum TypeView {
    Bool,
    String,
    Path,
    Enum(Seq<Seq<char>>),
    Int,
    Float,
    ListOf(Box<TypeView>),
    Attrs,
    Unknown(Seq<char>),
}

/// The mathematical content of an `HmOption`.
pub struct OptionView {
    pub path: Seq<char>,
    pub description: Seq<char>,
    pub option_type: TypeView,
    pub default: Option<Seq<char>>,
    pub current_value: Option<Seq<char>>,
}

/// The content of an option type.
pub open spec fn type_view(t: OptionType) -> TypeView
    decreases t,
{
    match t {
        OptionType::Bool => TypeView::Bool,
        OptionType::String => TypeView::String,
        OptionType::Path => TypeView::Path,
        OptionType::Enum(choices) => TypeView::Enum(texts(choices@)),
        OptionType::Int => TypeView::Int,
        OptionType::Float => TypeView::Float,
        OptionType::ListOf(item) => TypeView::ListOf(Box::new(type_view(*item))),
        OptionType::Attrs => TypeView::Attrs,
        OptionType::Unknown(name) => TypeView::Unknown(name@),
    }
}

impl View for OptionType {
    type V = TypeView;

    open spec fn view(&self) -> TypeView {
        type_view(*self)
    }
}

impl Clone for OptionType {
    fn clone(&self) -> (r: OptionType)
        ensures
            r@ == self@,
        decreases self,
    {
        match self {
            OptionType::Bool => OptionType::Bool,
            OptionType::String => OptionType::String,
            OptionType::Path => OptionType::Path,
            OptionType::Enum(choices) => {
                let copies = choices.clone();
                assert(texts(copies@) =~= texts(choices@));
                OptionType::Enum(copies)
            },
            OptionType::Int => OptionType::Int,
            OptionType::Float => OptionType::Float,
            OptionType::ListOf(item) => OptionType::ListOf(Box::new((&**item).clone())),
            OptionType::Attrs => OptionType::Attrs,
            OptionType::Unknown(name) => OptionType::Unknown(name.clone()),
        }
    }
}

impl View for HmOption {
    type V = OptionView;

    open spec fn view(&self) -> OptionView {
        OptionView {
            path: self.path@,
            description: self.description@,
            option_type: self.option_type@,
            default: opt_text(self.default),
            current_value: opt_text(self.current_value),
        }
    }
}

/// The contents of options.
pub open spec fn option_views(options: Seq<HmOption>) -> Seq<OptionView> {
    options.map_values(|option: HmOption| option@)
}

impl View for OptionTree {
    type V = Seq<OptionView>;

    open spec fn view(&self) -> Seq<OptionView> {
        option_views(self.options@)
    }
}

/// The names of the type of texts.
pub open spec fn names_text(t: Seq<char>) -> bool {
    ||| t == "string"@
    ||| t == "non-empty string"@
    ||| t == "strings concatenated with \"\\n\""@
}

/// The names of the type of integers.
pub open spec fn names_integer(t: Seq<char>) -> bool {
    ||| t == "integer"@
    ||| t == "positive integer"@
    ||| t == "unsigned integer, meaning >=0"@
}

/// The option type that Home Manager calls `t`.
pub open spec fn named_type(t: Seq<char>) -> TypeView
    decreases t.len(),
    via named_type_decreases
{
    if t == "boolean"@ {
        TypeView::Bool
    } else if names_text(t) {
        TypeView::String
    } else if t == "path"@ {
        TypeView::Path
    } else if names_integer(t) {
        TypeView::Int
    } else if t == "float"@ {
        TypeView::Float
    } else if has_prefix(t, "one of "@) {
        TypeView::Enum(
            pieces(strip_all(t, "one of "@), ", "@).map_values(
                |choice: Seq<char>| stripped(choice, '"'),
            ),
        )
    } else if has_prefix(t, "list of "@) {
        TypeView::ListOf(Box::new(named_type(strip_all(t, "list of "@))))
    } else if has_part(t, "attribute set"@) {
        TypeView::Attrs
    } else {
        TypeView::Unknown(t)
    }
}

#[via_fn]
proof fn named_type_decreases(t: Seq<char>) {
    reveal_strlit("list of ");
    lemma_strip_shortens(t, "list of "@);
}

/// Stripping a text of a prefix that it has makes it shorter.
proof fn lemma_strip_shortens(s: Seq<char>, p: Seq<char>)
    requires
        p.len() > 0,
    ensures
        strip_all(s, p).len() <= s.len(),
        has_prefix(s, p) ==> strip_all(s, p).len() < s.len(),
    decreases s.len(),
{
    if has_prefix(s, p) {
        lemma_strip_shortens(s.skip(p.len() as int), p);
    }
}

/// The option type that Home Manager calls `type_str`.
pub fn parse_option_type(type_str: &str) -> (r: OptionType)
    ensures
        r@ == named_type(type_str@),
    decreases type_str@.len(),
{
    if same(type_str, "boolean") {
        OptionType::Bool
    } else if same(type_str, "string") || same(type_str, "non-empty string") || same(
        type_str,
        "strings concatenated with \"\\n\"",
    ) {
        OptionType::String
    } else if same(type_str, "path") {
        OptionType::Path
    } else if same(type_str, "integer") || same(type_str, "positive integer") || same(
        type_str,
        "unsigned integer, meaning >=0",
    ) {
        OptionType::Int
    } else if same(type_str, "float") {
        OptionType::Float
    } else if starts_with(type_str, "one of ") {
        proof {
            reveal_strlit(", ");
        }
        let list = trim_start_matches(type_str, "one of ");
        OptionType::Enum(split_stripped(list.as_str(), ", ", '"'))
    } else if starts_with(type_str, "list of ") {
        proof {
            reveal_strlit("list of ");
            lemma_strip_shortens(type_str@, "list of "@);
        }
        let item = trim_start_matches(type_str, "list of ");
        OptionType::ListOf(Box::new(parse_option_type(item.as_str())))
    } else if contains(type_str, "attribute set") {
        OptionType::Attrs
    } else {
        OptionType::Unknown(type_str.to_owned())
    }
}

/// The path of the member `key` of the node at `path`.
pub open spec fn child_path(path: Seq<char>, key: Seq<char>) -> Seq<char> {
    if path.len() == 0 {
        key
    } else {
        path.push('.') + key
    }
}

/// Whether a node of the schema is an option.
pub open spec fn is_option(json: JsonTree) -> bool {
    text_field(json, "_type"@) == Some("option"@)
}

/// The option that the node `json` at `path` describes.
pub open spec fn option_at(path: Seq<char>, json: JsonTree) -> OptionView {
    OptionView {
        path,
        description: text_or_empty(json, "description"@),
        option_type: named_type(
            match text_field(json, "type"@) {
                Some(t) => t,
                None => "unknown"@,
            },
        ),
        default: match field(json, "default"@) {
            Some(member) => Some(nix_expression(member.value)),
            None => None,
        },
        current_value: None,
    }
}

/// The options in the schema `json` whose root stands at `path`: the node itself if it is an
/// option, or else the options below its members.
pub open spec fn options_in(path: Seq<char>, json: JsonTree) -> Seq<OptionView>
    decreases json, 0nat,
{
    match json {
        JsonTree::Object(members) => if is_option(json) {
            seq![option_at(path, json)]
        } else {
            options_below(path, members, members.len())
        },
        _ => Seq::empty(),
    }
}

/// The options below the first `n` members of a node, in order. Members whose key starts with an
/// underscore hold none.
pub open spec fn options_below(path: Seq<char>, members: Seq<MemberTree>, n: nat) -> Seq<OptionView>
    decreases members, n,
{
    if n == 0 || n > members.len() {
        Seq::empty()
    } else {
        let member = members[n - 1];
        options_below(path, members, (n - 1) as nat) + if has_prefix(member.key, "_"@) {
            Seq::empty()
        } else {
            options_in(child_path(path, member.key), member.value)
        }
    }
}

/// The path of the member `key` of the node at `path`.
fn path_of_child(path: &str, key: &str) -> (r: String)
    ensures
        r@ == child_path(path@, key@),
{
    if path.is_empty() {
        key.to_owned()
    } else {
        let mut out = path.to_owned();
        out.push('.');
        out.append(key);
        out
    }
}

/// The option that the node `json` at `path` describes.
fn read_option(path: &str, json: &Json) -> (r: HmOption)
    ensures
        r@ == option_at(path@, json@),
{
    let description = json.text_or_empty("description");
    let type_str = match json.text("type") {
        Some(t) => t,
        None => "unknown".to_owned(),
    };
    let default = match json.member("default") {
        Some(member) => Some(nix_value(&member.value)),
        None => None,
    };
    let option_type = parse_option_type(type_str.as_str());
    HmOption { path: path.to_owned(), description, option_type, default, current_value: None }
}

/// Appends the options in the schema `json`, whose root stands at `path`, to `out`.
pub fn collect_options(path: &str, json: &Json, out: &mut Vec<HmOption>)
    ensures
        option_views(final(out)@) == option_views(old(out)@) + options_in(path@, json@),
    decreases json,
{
    match json {
        Json::Object(members) => {
            if let Some(kind) = json.text("_type") {
                if same(kind.as_str(), "option") {
                    out.push(read_option(path, json));
                    assert(option_views(out@) =~= option_views(old(out)@) + options_in(path@, json@));
                    return;
                }
            }
            let ghost all = json@->Object_0;
            let ghost before = option_views(old(out)@);
            let mut i: usize = 0;
            assert(option_views(out@) =~= before + options_below(path@, all, 0));
            while i < members.len()
                invariant
                    i <= members@.len(),
                    json == Json::Object(*members),
                    all.len() == members@.len(),
                    forall|j: int| 0 <= j < all.len() ==> all[j] == members@[j].tree(),
                    option_views(out@) == before + options_below(path@, all, i as nat),
                decreases members@.len() - i,
            {
                let member = &members[i];
                assert(all[i as int] == member.tree());
                if !starts_with(member.key.as_str(), "_") {
                    let child = path_of_child(path, member.key.as_str());
                    assert(decreases_to!(*json => json->Object_0));
                    assert(decreases_to!(members@ => members@[i as int]));
                    assert(decreases_to!(members@[i as int] => members@[i as int].value));
                    collect_options(child.as_str(), &member.value, out);
                }
                i = i + 1;
                assert(option_views(out@) =~= before + options_below(path@, all, i as nat));
            }
        },
        _ => {
            assert(option_views(out@) =~= option_views(old(out)@) + options_in(path@, json@));
        },
    }
}

/// The options in the schema `json`, whose root stands at `prefix`.
pub fn parse_option_tree(prefix: &str, json: &Json) -> (r: OptionTree)
    ensures
        r@ == options_in(prefix@, json@),
{
    let mut options: Vec<HmOption> = Vec::new();
    collect_options(prefix, json, &mut options);
    assert(option_views(Seq::<HmOption>::empty()) + options_in(prefix@, json@) =~= options_in(
        prefix@,
        json@,
    ));
    OptionTree { options }
}

/// The reference to the options below `attr_path` in the user's Home Manager flake.
pub open spec fn options_ref(home: Seq<char>, user: Option<Seq<char>>, attr_path: Seq<char>) -> Seq<
    char,
> {
    hm_config(home) + "#homeConfigurations."@ + user_name(user) + ".options."@ + attr_path
}

/// The command that evaluates the options below `attr_path`.
pub open spec fn evaluation(
    home: Seq<char>,
    user: Option<Seq<char>>,
    attr_path: Seq<char>,
) -> CommandView {
    CommandView {
        program: "nix"@,
        args: seq![
            "eval"@,
            "--json"@,
            "--extra-experimental-features"@,
            "nix-command flakes"@,
            options_ref(home, user, attr_path),
        ],
    }
}

/// The command that evaluates the options below `attr_path`.
pub fn eval_command(home: &str, user: Option<&str>, attr_path: &str) -> (r: CommandLine)
    ensures
        r@ == evaluation(home@, opt_str(user), attr_path@),
{
    let mut flake_ref = join_path(home, ".config/home-manager");
    flake_ref.append("#homeConfigurations.");
    flake_ref.append(user_or_default(user).as_str());
    flake_ref.append(".options.");
    flake_ref.append(attr_path);
    let mut args: Vec<String> = Vec::new();
    args.push("eval".to_owned());
    args.push("--json".to_owned());
    args.push("--extra-experimental-features".to_owned());
    args.push("nix-command flakes".to_owned());
    args.push(flake_ref);
    let r = CommandLine { program: "nix".to_owned(), args };
    assert(r@ =~= evaluation(home@, opt_str(user), attr_path@));
    r
}

/// The message for an evaluation that failed.
pub open spec fn eval_failure(attr_path: Seq<char>, stderr: Seq<char>) -> Seq<char> {
    "nix eval failed for "@ + attr_path + ": "@ + stderr
}

/// The message for an evaluation that failed and printed `stderr`.
pub fn eval_failure_message(attr_path: &str, stderr: &str) -> (r: String)
    ensures
        r@ == eval_failure(attr_path@, stderr@),
{
    let mut message = "nix eval failed for ".to_owned();
    message.append(attr_path);
    message.append(": ");
    message.append(stderr);
    message
}

/// The options that the schema `read` holds, if it was read.
pub open spec fn read_options(
    attr_path: Seq<char>,
    read: Result<JsonTree, Seq<char>>,
) -> Result<Seq<OptionView>, Seq<char>> {
    match read {
        Ok(json) => Ok(options_in(attr_path, json)),
        Err(message) => Err(message),
    }
}

/// The options below `attr_path` that the evaluation's output gives, or why it gives none.
pub open spec fn evaluated_options(attr_path: Seq<char>, output: CommandOutput) -> Result<
    Seq<OptionView>,
    Seq<char>,
> {
    if output.success {
        read_options(attr_path, bytes_json(output.stdout@))
    } else {
        Err(eval_failure(attr_path, lossy_text(output.stderr@)))
    }
}

/// The options below `attr_path` that a cache holds.
pub open spec fn kept_options(
    cache: Map<Seq<char>, Seq<OptionView>>,
    attr_path: Seq<char>,
) -> Option<Seq<OptionView>> {
    if cache.contains_key(attr_path) {
        Some(cache[attr_path])
    } else {
        None
    }
}

/// A cache after options below `attr_path` were read, or could not be read.
pub open spec fn cache_after(
    cache: Map<Seq<char>, Seq<OptionView>>,
    attr_path: Seq<char>,
    read: Result<Seq<OptionView>, Seq<char>>,
) -> Map<Seq<char>, Seq<OptionView>> {
    match read {
        Ok(options) => cache.insert(attr_path, options),
        Err(_) => cache,
    }
}

/// What to do for the options below an attribute path.
pub enum OptionsLookup {
    /// They were read before, and are these
    Kept(Arc<OptionTree>),
    /// They are to be evaluated with this command
    Evaluate(CommandLine),
    /// They cannot be evaluated, as the home directory is not known
    NoHome,
}

/// The mathematical content of an `OptionsLookup`.
pub enum LookupView {
    Kept(Seq<OptionView>),
    Evaluate(CommandView),
    NoHome,
}

impl View for OptionsLookup {
    type V = LookupView;

    open spec fn view(&self) -> LookupView {
        match self {
            OptionsLookup::Kept(tree) => LookupView::Kept(tree@),
            OptionsLookup::Evaluate(command) => LookupView::Evaluate(command@),
            OptionsLookup::NoHome => LookupView::NoHome,
        }
    }
}

/// What to do for the options below `attr_path`: to hand out what `cache` holds, or else to
/// evaluate them in the home directory, if it is known.
pub open spec fn looked_up(
    cache: Map<Seq<char>, Seq<OptionView>>,
    attr_path: Seq<char>,
    home: Option<Seq<char>>,
    user: Option<Seq<char>>,
) -> LookupView {
    match (kept_options(cache, attr_path), home) {
        (Some(options), _) => LookupView::Kept(options),
        (None, Some(home)) => LookupView::Evaluate(evaluation(home, user, attr_path)),
        (None, None) => LookupView::NoHome,
    }
}

/// The options already read, by attribute path.
pub struct OptionCache {
    trees: StringHashMap<Arc<OptionTree>>,
}

impl View for OptionCache {
    type V = Map<Seq<char>, Seq<OptionView>>;

    closed spec fn view(&self) -> Map<Seq<char>, Seq<OptionView>> {
        self.trees@.map_values(|tree: Arc<OptionTree>| tree@)
    }
}

impl OptionCache {
    /// The cache before any options were read.
    pub fn new() -> (r: OptionCache)
        ensures
            r@ == Map::<Seq<char>, Seq<OptionView>>::empty(),
    {
        let r = OptionCache { trees: StringHashMap::new() };
        assert(r@ =~= Map::<Seq<char>, Seq<OptionView>>::empty());
        r
    }

    /// The options below `attr_path`, if they were read before.
    pub fn cached(&self, attr_path: &str) -> (r: Option<Arc<OptionTree>>)
        ensures
            match r {
                Some(tree) => kept_options(self@, attr_path@) == Some(tree@),
                None => kept_options(self@, attr_path@) is None,
            },
    {
        match self.trees.get(attr_path) {
            Some(tree) => Some(share(tree)),
            None => None,
        }
    }

    /// Decides what to do for the options below `attr_path`.
    pub fn lookup(&self, attr_path: &str, home: Option<&str>, user: Option<&str>) -> (r:
        OptionsLookup)
        ensures
            r@ == looked_up(self@, attr_path@, opt_str(home), opt_str(user)),
    {
        match self.cached(attr_path) {
            Some(tree) => OptionsLookup::Kept(tree),
            None => match home {
                Some(home) => OptionsLookup::Evaluate(eval_command(home, user, attr_path)),
                None => OptionsLookup::NoHome,
            },
        }
    }

    /// Reads the options below `attr_path` from what evaluating them gave, and keeps them.
    pub fn get_options(&mut self, attr_path: &str, output: &CommandOutput) -> (r: Result<
        Arc<OptionTree>,
        String,
    >)
        ensures
            match r {
                Ok(tree) => evaluated_options(attr_path@, *output) == Ok::<
                    Seq<OptionView>,
                    Seq<char>,
                >(tree@),
                Err(message) => evaluated_options(attr_path@, *output) == Err::<
                    Seq<OptionView>,
                    Seq<char>,
                >(message@),
            },
            final(self)@ == cache_after(
                old(self)@,
                attr_path@,
                evaluated_options(attr_path@, *output),
            ),
    {
        if !output.success {
            let stderr = from_utf8_lossy(output.stderr.as_slice());
            return Err(eval_failure_message(attr_path, stderr.as_str()));
        }
        match parse_bytes(output.stdout.as_slice()) {
            Ok(json) => {
                let tree = Arc::new(parse_option_tree(attr_path, &json));
                let kept = share(&tree);
                self.trees.insert(attr_path.to_owned(), kept);
                assert(self@ =~= old(self)@.insert(attr_path@, tree@));
                Ok(tree)
            },
            Err(message) => Err(message),
        }
    }
}

/// Options that were read are kept, and reading others, or failing to, changes nothing for them.
pub proof fn read_options_are_kept(
    cache: Map<Seq<char>, Seq<OptionView>>,
    attr_path: Seq<char>,
    options: Seq<OptionView>,
    other: Seq<char>,
    read: Result<Seq<OptionView>, Seq<char>>,
)
    ensures
        kept_options(cache_after(cache, attr_path, Ok(options)), attr_path) == Some(options),
        other != attr_path ==> kept_options(cache_after(cache, other, read), attr_path)
            == kept_options(cache, attr_path),
        read is Err ==> kept_options(cache_after(cache, attr_path, read), attr_path)
            == kept_options(cache, attr_path),
{
}

/// A request for the options below an attribute path.
pub struct OptionsCall {
    pub attr_path: Seq<char>,
    pub home: Option<Seq<char>>,
    pub user: Option<Seq<char>>,
    /// What evaluating the options gives, if the request comes to that
    pub read: Result<Seq<OptionView>, Seq<char>>,
}

/// The options that a request is answered with, if any.
pub open spec fn answer(cache: Map<Seq<char>, Seq<OptionView>>, call: OptionsCall) -> Option<
    Seq<OptionView>,
> {
    match looked_up(cache, call.attr_path, call.home, call.user) {
        LookupView::Kept(options) => Some(options),
        LookupView::Evaluate(_) => match call.read {
            Ok(options) => Some(options),
            Err(_) => None,
        },
        LookupView::NoHome => None,
    }
}

/// A cache after a request.
pub open spec fn cache_after_call(
    cache: Map<Seq<char>, Seq<OptionView>>,
    call: OptionsCall,
) -> Map<Seq<char>, Seq<OptionView>> {
    match looked_up(cache, call.attr_path, call.home, call.user) {
        LookupView::Evaluate(_) => cache_after(cache, call.attr_path, call.read),
        _ => cache,
    }
}

/// A cache after the first `n` requests.
pub open spec fn cache_after_calls(
    cache: Map<Seq<char>, Seq<OptionView>>,
    calls: Seq<OptionsCall>,
    n: nat,
) -> Map<Seq<char>, Seq<OptionView>>
    decreases n,
{
    if n == 0 || n > calls.len() {
        cache
    } else {
        cache_after_call(cache_after_calls(cache, calls, (n - 1) as nat), calls[n - 1])
    }
}

/// Options are evaluated once: after a request that was answered with options, every later request
/// for the same path finds them kept, whatever was requested in between, and also where the home
/// directory is no longer known; it is answered with the same options.
pub proof fn options_are_evaluated_once(
    cache: Map<Seq<char>, Seq<OptionView>>,
    calls: Seq<OptionsCall>,
    i: int,
    j: int,
)
    requires
        0 <= i < j < calls.len(),
        calls[i].attr_path == calls[j].attr_path,
        answer(cache_after_calls(cache, calls, i as nat), calls[i]) is Some,
    ensures
        looked_up(
            cache_after_calls(cache, calls, j as nat),
            calls[j].attr_path,
            calls[j].home,
            calls[j].user,
        ) == LookupView::Kept(answer(cache_after_calls(cache, calls, i as nat), calls[i])->0),
        answer(cache_after_calls(cache, calls, j as nat), calls[j]) == answer(
            cache_after_calls(cache, calls, i as nat),
            calls[i],
        ),
{
    lemma_answers_are_kept(cache, calls, i, j as nat);
}

/// The options that a request was answered with are kept through all later requests.
proof fn lemma_answers_are_kept(
    cache: Map<Seq<char>, Seq<OptionView>>,
    calls: Seq<OptionsCall>,
    i: int,
    n: nat,
)
    requires
        0 <= i < n <= calls.len(),
        answer(cache_after_calls(cache, calls, i as nat), calls[i]) is Some,
    ensures
        kept_options(cache_after_calls(cache, calls, n), calls[i].attr_path) == answer(
            cache_after_calls(cache, calls, i as nat),
            calls[i],
        ),
    decreases n,
{
    if i + 1 < n {
        lemma_answers_are_kept(cache, calls, i, (n - 1) as nat);
    }
}

/// A request that was answered with no options changes nothing, so that the next request for the
/// same path evaluates them again, if the home directory is known.
pub proof fn failures_are_not_kept(
    cache: Map<Seq<char>, Seq<OptionView>>,
    call: OptionsCall,
    home: Seq<char>,
    user: Option<Seq<char>>,
)
    requires
        answer(cache, call) is None,
    ensures
        cache_after_call(cache, call) == cache,
        looked_up(cache_after_call(cache, call), call.attr_path, Some(home), user)
            == LookupView::Evaluate(evaluation(home, user, call.attr_path)),
{
}

/// A text that begins with the path of a child begins with the path of its parent.
proof fn lemma_below_child(path: Seq<char>, key: Seq<char>, s: Seq<char>)
    requires
        has_prefix(s, child_path(path, key)),
    ensures
        has_prefix(s, path),
{
    let child = child_path(path, key);
    assert(s.subrange(0, path.len() as int) =~= path) by {
        assert forall|i: int| 0 <= i < path.len() implies s[i] == path[i] by {
            assert(s.subrange(0, child.len() as int)[i] == child[i]);
        }
    }
}

/// The path of every option in a schema begins with the path of the schema's root.
pub proof fn options_lie_below_root(path: Seq<char>, json: JsonTree)
    ensures
        forall|i: int|
            0 <= i < options_in(path, json).len() ==> has_prefix(
                (#[trigger] options_in(path, json)[i]).path,
                path,
            ),
    decreases json, 0nat,
{
    assert(path.subrange(0, path.len() as int) =~= path);
    if let JsonTree::Object(members) = json {
        if !is_option(json) {
            lemma_options_below_members(path, members, members.len());
        }
    }
}

/// The path of every option below a node's members begins with the path of the node.
proof fn lemma_options_below_members(path: Seq<char>, members: Seq<MemberTree>, n: nat)
    ensures
        forall|i: int|
            0 <= i < options_below(path, members, n).len() ==> has_prefix(
                (#[trigger] options_below(path, members, n)[i]).path,
                path,
            ),
    decreases members, n,
{
    if 0 < n <= members.len() {
        let member = members[n - 1];
        let before = options_below(path, members, (n - 1) as nat);
        let child = child_path(path, member.key);
        lemma_options_below_members(path, members, (n - 1) as nat);
        if !has_prefix(member.key, "_"@) {
            assert(decreases_to!(members => members[n - 1]));
            let inner = options_in(child, member.value);
            options_lie_below_root(child, member.value);
            assert forall|i: int| 0 <= i < options_below(path, members, n).len() implies has_prefix(
                (#[trigger] options_below(path, members, n)[i]).path,
                path,
            ) by {
                if i < before.len() {
                    assert(options_below(path, members, n)[i] == before[i]);
                } else {
                    assert(options_below(path, members, n)[i] == inner[i - before.len()]);
                    lemma_below_child(path, member.key, inner[i - before.len()].path);
                }
            }
        } else {
            assert(options_below(path, members, n) =~= before);
        }
    }
}

/// The type of lists says what the lists hold: the type that is named behind `list of`.
pub proof fn lists_say_what_they_hold(t: Seq<char>)
    ensures
        named_type("list of "@ + t) == TypeView::ListOf(
            Box::new(named_type(strip_all(t, "list of "@))),
        ),
        !has_prefix(t, "list of "@) ==> named_type("list of "@ + t) == TypeView::ListOf(
            Box::new(named_type(t)),
        ),
{
    let s = "list of "@ + t;
    lemma_first_chars();
    assert(s[0] == 'l');
    assert(!has_prefix(s, "one of "@)) by {
        if has_prefix(s, "one of "@) {
            assert(s.subrange(0, 7)[0] == 'l');
        }
    }
    patterns_part_texts(Seq::empty(), "list of "@, t);
    stripping_takes_copies_off(t, "list of "@);
}

/// How the names of types begin.
proof fn lemma_first_chars()
    ensures
        "list of "@.len() == 8 && "list of "@[0] == 'l',
        "one of "@.len() == 7 && "one of "@[0] == 'o',
        "boolean"@[0] == 'b' && "boolean"@.len() > 0,
        "string"@[0] == 's' && "string"@.len() > 0,
        "non-empty string"@[0] == 'n' && "non-empty string"@.len() > 0,
        "strings concatenated with \"\\n\""@[0] == 's',
        "strings concatenated with \"\\n\""@.len() > 0,
        "path"@[0] == 'p' && "path"@.len() > 0,
        "integer"@[0] == 'i' && "integer"@.len() > 0,
        "positive integer"@[0] == 'p' && "positive integer"@.len() > 0,
        "unsigned integer, meaning >=0"@[0] == 'u' && "unsigned integer, meaning >=0"@.len() > 0,
        "float"@[0] == 'f' && "float"@.len() > 0,
        ", "@.len() == 2,
{
    reveal_strlit("list of ");
    reveal_strlit("one of ");
    reveal_strlit("boolean");
    reveal_strlit("string");
    reveal_strlit("non-empty string");
    reveal_strlit("strings concatenated with \"\\n\"");
    reveal_strlit("path");
    reveal_strlit("integer");
    reveal_strlit("positive integer");
    reveal_strlit("unsigned integer, meaning >=0");
    reveal_strlit("float");
    reveal_strlit(", ");
}

/// The type of fixed choices lists the choices between the commas, in order and without their
/// quotes: the choices of a text are the one before its first comma and those of what follows. A
/// text without a comma is one choice.
pub proof fn choices_are_listed(a: Seq<char>, b: Seq<char>)
    requires
        !has_prefix(a, "one of "@),
        !has_prefix(b, "one of "@),
        !has_prefix(a + ", "@ + b, "one of "@),
    ensures
        !has_part(a, ", "@) ==> named_type("one of "@ + a) == TypeView::Enum(
            seq![stripped(a, '"')],
        ),
        (forall|i: int| 0 <= i < a.len() ==> !occurs_at(a + ", "@ + b, ", "@, i)) ==> (named_type(
            "one of "@ + b,
        ) matches TypeView::Enum(rest) && named_type("one of "@ + (a + ", "@ + b))
            == TypeView::Enum(seq![stripped(a, '"')] + rest)),
{
    let strip = |choice: Seq<char>| stripped(choice, '"');
    lemma_first_chars();
    lemma_choices(a);
    lemma_choices(b);
    lemma_choices(a + ", "@ + b);
    separators_part_texts(a, b, ", "@);
    assert(seq![a].map_values(strip) =~= seq![stripped(a, '"')]);
    let tail = pieces(b, ", "@);
    assert((seq![a] + tail).map_values(strip) =~= seq![stripped(a, '"')] + tail.map_values(strip));
}

/// The choices behind `one of` are the pieces between the commas.
proof fn lemma_choices(s: Seq<char>)
    requires
        !has_prefix(s, "one of "@),
    ensures
        named_type("one of "@ + s) == TypeView::Enum(
            pieces(s, ", "@).map_values(|choice: Seq<char>| stripped(choice, '"')),
        ),
{
    let t = "one of "@ + s;
    lemma_first_chars();
    assert(t[0] == 'o');
    patterns_part_texts(Seq::empty(), "one of "@, s);
    stripping_takes_copies_off(s, "one of "@);
}

/// A type that is not known keeps its name, and a type goes by its names only.
pub proof fn types_go_by_their_names(t: Seq<char>)
    ensures
        named_type(t) matches TypeView::Unknown(name) ==> name == t && !has_part(
            t,
            "attribute set"@,
        ),
        named_type(t) is Bool ==> t == "boolean"@,
        named_type(t) is Path ==> t == "path"@,
        named_type(t) is Float ==> t == "float"@,
        named_type(t) is String ==> t == "string"@ || t == "non-empty string"@ || t
            == "strings concatenated with \"\\n\""@,
        named_type(t) is Int ==> t == "integer"@ || t == "positive integer"@ || t
            == "unsigned integer, meaning >=0"@,
        named_type(t) is Attrs ==> has_part(t, "attribute set"@),
        named_type(t) is Enum ==> has_prefix(t, "one of "@),
        named_type(t) is ListOf ==> has_prefix(t, "list of "@),
        named_type("boolean"@) is Bool,
        named_type("string"@) is String && named_type("non-empty string"@) is String,
        named_type("path"@) is Path,
        named_type("integer"@) is Int && named_type("positive integer"@) is Int,
        named_type("float"@) is Float,
        named_type("strings concatenated with \"\\n\""@) is String,
        named_type("unsigned integer, meaning >=0"@) is Int,
{
    lemma_first_chars();
    reveal_strlit("path");
    reveal_strlit("positive integer");
    assert("path"@.len() == 4 && "positive integer"@.len() == 16);
}

/// An option says what its node says: it has the node's path, description and type, and as its
/// default the Nix expression for the node's default, if the node has one.
pub proof fn options_say_what_nodes_say(path: Seq<char>, json: JsonTree, r: HmOption)
    requires
        r@ == option_at(path, json),
    ensures
        r.path@ == path,
        r.description@ == text_or_empty(json, "description"@),
        text_field(json, "type"@) matches Some(t) ==> r.option_type@ == named_type(t),
        text_field(json, "type"@) is None ==> r.option_type@ == named_type("unknown"@),
        field(json, "default"@) matches Some(member) ==> r.default is Some && r.default->0@
            == nix_expression(member.value),
        field(json, "default"@) is None ==> r.default is None,
        r.current_value is None,
{
}

/// A node that is an option gives that option and nothing below it; a value that is no object
/// gives none.
pub proof fn options_are_leaves(path: Seq<char>, json: JsonTree)
    ensures
        json is Object && is_option(json) ==> options_in(path, json) == seq![option_at(path, json)],
        !(json is Object) ==> options_in(path, json).len() == 0,
        is_option(json) <==> field(json, "_type"@) is Some && field(json, "_type"@)->0.value
            == JsonTree::Text("option"@),
{
}

/// The options of a node are those of its members, in order: a member whose key starts with an
/// underscore gives none, and any other gives the options below the path with its key.
pub proof fn options_add_up(path: Seq<char>, members: Seq<MemberTree>, member: MemberTree)
    requires
        !is_option(JsonTree::Object(members.push(member))),
    ensures
        options_in(path, JsonTree::Object(members.push(member))) == options_in(
            path,
            JsonTree::Object(members),
        ) + if has_prefix(member.key, "_"@) {
            Seq::empty()
        } else {
            options_in(child_path(path, member.key), member.value)
        },
        options_in(path, JsonTree::Object(Seq::empty())).len() == 0,
{
    let more = members.push(member);
    let none = JsonTree::Object(Seq::<MemberTree>::empty());
    assert(!is_option(none));
    lemma_field_of_more(members, member, "_type"@);
    assert(!is_option(JsonTree::Object(members)));
    lemma_options_below_same(path, members, more, members.len());
    assert(more[more.len() - 1] == member);
}

/// A further member does not change what an object has already.
proof fn lemma_field_of_more(members: Seq<MemberTree>, member: MemberTree, key: Seq<char>)
    ensures
        find_member(members, key) is Some ==> find_member(members.push(member), key)
            == find_member(members, key),
    decreases members.len(),
{
    if members.len() > 0 && members[0].key != key {
        lemma_field_of_more(members.drop_first(), member, key);
        assert(members.push(member).drop_first() =~= members.drop_first().push(member));
    }
}

/// The options below the first members do not depend on those that follow.
proof fn lemma_options_below_same(
    path: Seq<char>,
    a: Seq<MemberTree>,
    b: Seq<MemberTree>,
    n: nat,
)
    requires
        n <= a.len(),
        a.is_prefix_of(b),
    ensures
        options_below(path, a, n) == options_below(path, b, n),
    decreases n,
{
    if n > 0 {
        assert(a[n - 1] == b[n - 1]);
        lemma_options_below_same(path, a, b, (n - 1) as nat);
    }
}

/// The path of a member is that of its node, a dot and the member's key; below the root it is the
/// key alone.
pub proof fn paths_are_dotted(path: Seq<char>, key: Seq<char>)
    ensures
        path.len() > 0 ==> child_path(path, key) == path + "."@ + key,
        path.len() == 0 ==> child_path(path, key) == key,
{
    reveal_strlit(".");
    assert(path + "."@ + key =~= path.push('.') + key);
}

/// The command that evaluates options asks Nix for JSON, for the options below the path, in the
/// user's part of the flake in the home directory.
pub proof fn evaluations_ask_for_the_path(
    home: Seq<char>,
    user: Option<Seq<char>>,
    attr_path: Seq<char>,
    r: CommandLine,
)
    requires
        r@ == evaluation(home, user, attr_path),
    ensures
        r.program@ == "nix"@,
        r.args@.len() == 5 && r.args@[0]@ == "eval"@ && r.args@[1]@ == "--json"@,
        r.args@[2]@ == "--extra-experimental-features"@ && r.args@[3]@ == "nix-command flakes"@,
        has_prefix(r.args@[4]@, hm_config(home)),
        user matches Some(name) ==> r.args@[4]@ == hm_config(home) + "#homeConfigurations."@ + name
            + ".options."@ + attr_path,
        r.args@[4]@.skip(r.args@[4]@.len() - attr_path.len()) == attr_path,
{
    let args = r@.args;
    assert(args.len() == r.args@.len());
    assert(forall|i: int| 0 <= i < args.len() ==> (#[trigger] r.args@[i])@ == args[i]);
    let text = args[4];
    let rest = "#homeConfigurations."@ + user_name(user) + ".options."@ + attr_path;
    assert(text =~= hm_config(home) + rest);
    patterns_part_texts(Seq::empty(), hm_config(home), rest);
    assert(text.skip(text.len() - attr_path.len()) =~= attr_path);
}

/// What an evaluation gives: the options of the JSON that it printed, if it succeeded and printed
/// JSON; else the parser's message, or a message with the path and what was printed as errors.
pub proof fn evaluations_give_options_or_reasons(attr_path: Seq<char>, output: CommandOutput)
    ensures
        evaluated_options(attr_path, output) is Ok <==> output.success && bytes_json(
            output.stdout@,
        ) is Ok,
        output.success ==> (bytes_json(output.stdout@) matches Ok(json) ==> evaluated_options(
            attr_path,
            output,
        ) == Ok::<Seq<OptionView>, Seq<char>>(options_in(attr_path, json))),
        output.success ==> (bytes_json(output.stdout@) matches Err(message) ==> evaluated_options(
            attr_path,
            output,
        ) == Err::<Seq<OptionView>, Seq<char>>(message)),
        !output.success ==> evaluated_options(attr_path, output) == Err::<
            Seq<OptionView>,
            Seq<char>,
        >("nix eval failed for "@ + attr_path + ": "@ + lossy_text(output.stderr@)),
{
}

/// The content of a type is its kind, with all its choices or with the type that it holds.
pub proof fn views_of_types(choices: Vec<String>, item: Box<OptionType>, name: String)
    ensures
        OptionType::Enum(choices)@ == TypeView::Enum(texts(choices@)),
        OptionType::ListOf(item)@ == TypeView::ListOf(Box::new((*item)@)),
        OptionType::Unknown(name)@ == TypeView::Unknown(name@),
        OptionType::Bool@ is Bool && OptionType::String@ is String && OptionType::Path@ is Path,
        OptionType::Int@ is Int && OptionType::Float@ is Float && OptionType::Attrs@ is Attrs,
{
}

/// The views of options are those of each one, in order.
pub proof fn views_of_options(options: Seq<HmOption>, i: int)
    ensures
        option_views(options).len() == options.len(),
        0 <= i < options.len() ==> option_views(options)[i].path == options[i].path@
            && option_views(options)[i].description == options[i].description@ && option_views(
            options,
        )[i].default == opt_text(options[i].default) && option_views(options)[i].option_type
            == options[i].option_type@,
{
}

/// Options that are kept are handed out wherever and for whomever they are asked for; what is not
/// kept is evaluated for the home directory and the user that are given, and without a home
/// directory there is nothing to be done.
pub proof fn lookups_prefer_what_is_kept(
    cache: Map<Seq<char>, Seq<OptionView>>,
    attr_path: Seq<char>,
    home: Option<Seq<char>>,
    user: Option<Seq<char>>,
    r: OptionsLookup,
)
    requires
        r@ == looked_up(cache, attr_path, home, user),
    ensures
        cache.contains_key(attr_path) ==> (r matches OptionsLookup::Kept(tree) && tree@
            == cache[attr_path]),
        !cache.contains_key(attr_path) && home is Some ==> (r matches OptionsLookup::Evaluate(
            command,
        ) && command@ == evaluation(home->0, user, attr_path)),
        !cache.contains_key(attr_path) && home is None ==> r is NoHome,
{
}

} // verus!
