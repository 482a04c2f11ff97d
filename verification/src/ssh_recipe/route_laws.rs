//! What a reconnection takes over of the user's route, and what it always adds.

use crate::paths::quoted;
use crate::ssh_recipe::laws::{
    lemma_flags, lemma_kept_front, lemma_scan_entry, lemma_scan_shift, spells, well_formed,
};
use crate::ssh_recipe::{
    attach_words, cluster, ends_options, folded, is_plain_flag, is_refused_flag, is_valued_flag,
    kept_words, left_out, master_flags, master_keys, master_words, names_setting, option_words,
    parsed_arguments, quoted_line, recipe_error, recovery_flags, recovery_keys, recovery_line,
    same_ignoring_case, scan, setting_key, total_bytes, SshOption, SshRecipeView, MAX_ARGUMENTS,
};
use crate::workspace::sessions::is_token;
use vstd::prelude::*;
use vstd::string::*;
use vstd::utf8::encode_utf8;

verus! {

// ---------------------------------------------------------------------------
// What belongs to the connection that is lost
// ---------------------------------------------------------------------------

/// Letters of ASCII are the same in both cases.
pub open spec fn same_letter(a: char, b: char) -> bool {
    ||| a == b
    ||| 'A' <= a <= 'Z' && b as int == a as int + 32
    ||| 'A' <= b <= 'Z' && a as int == b as int + 32
}

/// The value of an `-o` option sets this: it begins with the name, in whatever case, and
/// the name ends there or at an equals sign, a space or a tab.
pub open spec fn sets(value: Seq<char>, name: Seq<char>) -> bool {
    &&& name.len() <= value.len()
    &&& forall|i: int| 0 <= i < name.len() ==> same_letter(#[trigger] value[i], name[i])
    &&& name.len() < value.len() ==> value[name.len() as int] == '=' || value[name.len() as int]
        == ' ' || value[name.len() as int] == '\t'
}

/// Settings of forwardings, control sockets, terminals, sessions and remote commands.
pub open spec fn sets_connection(value: Seq<char>) -> bool {
    ||| sets(value, "ControlMaster"@)
    ||| sets(value, "ControlPath"@)
    ||| sets(value, "ControlPersist"@)
    ||| sets(value, "RequestTTY"@)
    ||| sets(value, "SessionType"@)
    ||| sets(value, "LocalForward"@)
    ||| sets(value, "RemoteForward"@)
    ||| sets(value, "DynamicForward"@)
    ||| sets(value, "ForkAfterAuthentication"@)
    ||| sets(value, "RemoteCommand"@)
}

/// An option that belongs to the user's connection, not to its route: a master does
/// without it.
pub open spec fn belongs_to_connection(option: SshOption) -> bool {
    ||| option.0 == 'S' || option.0 == 'M' || option.0 == 'N' || option.0 == 'T'
    ||| option.0 == 't' || option.0 == 'D' || option.0 == 'L' || option.0 == 'R'
    ||| option.0 == 'o' && option.1 is Some && sets_connection(option.1->Some_0)
}

/// An interactive recovery also does without what takes the standard input away.
pub open spec fn belongs_to_session(option: SshOption) -> bool {
    ||| belongs_to_connection(option)
    ||| option.0 == 'n'
    ||| option.0 == 'o' && option.1 is Some && sets(option.1->Some_0, "StdinNull"@)
}

/// No name of a setting holds a separator.
spec fn is_plain_name(name: Seq<char>) -> bool {
    forall|i: int|
        0 <= i < name.len() ==> (#[trigger] name[i]) != '=' && name[i] != ' ' && name[i] != '\t'
}

proof fn lemma_key_prefix(value: Seq<char>)
    ensures
        setting_key(value).len() <= value.len(),
        setting_key(value) == value.take(setting_key(value).len() as int),
        forall|i: int|
            0 <= i < setting_key(value).len() ==> (#[trigger] value[i]) != '=' && value[i] != ' '
                && value[i] != '\t',
        setting_key(value).len() < value.len() ==> {
            let c = value[setting_key(value).len() as int];
            c == '=' || c == ' ' || c == '\t'
        },
    decreases value.len(),
{
    if value.len() > 0 && !(value[0] == '=' || value[0] == ' ' || value[0] == '\t') {
        let rest = value.drop_first();
        lemma_key_prefix(rest);
        let key = setting_key(value);
        let inner = setting_key(rest);
        assert(key.len() == inner.len() + 1);
        assert forall|i: int| 0 <= i < key.len() implies (#[trigger] value[i]) != '=' && value[i]
            != ' ' && value[i] != '\t' by {
            if i > 0 {
                assert(rest[i - 1] == value[i]);
            }
        }
        assert forall|i: int| 0 <= i < key.len() implies key[i] == value[i] by {
            if i > 0 {
                assert(key[i] == inner[i - 1]);
                assert(inner[i - 1] == rest.take(inner.len() as int)[i - 1]);
            }
        }
        assert(key =~= value.take(key.len() as int));
        if key.len() < value.len() {
            assert(rest[inner.len() as int] == value[key.len() as int]);
        }
    } else {
        assert(setting_key(value) =~= value.take(0));
    }
}

proof fn lemma_sets(value: Seq<char>, name: Seq<char>)
    requires
        is_plain_name(name),
    ensures
        sets(value, name) == same_ignoring_case(setting_key(value), name),
{
    let key = setting_key(value);
    lemma_key_prefix(value);
    if same_ignoring_case(key, name) {
        assert forall|i: int| 0 <= i < name.len() implies same_letter(
            #[trigger] value[i],
            name[i],
        ) by {
            assert(folded(key[i]) == folded(name[i]));
            assert(key[i] == value[i]);
        }
    }
    if sets(value, name) {
        if key.len() < name.len() {
            let c = value[key.len() as int];
            assert(same_letter(c, name[key.len() as int]));
            assert(false);
        }
        if key.len() > name.len() {
            let c = value[name.len() as int];
            assert(c != '=' && c != ' ' && c != '\t');
        }
        assert forall|i: int| 0 <= i < key.len() implies folded(#[trigger] key[i]) == folded(
            name[i],
        ) by {
            assert(same_letter(value[i], name[i]));
            assert(key[i] == value[i]);
        }
    }
}

proof fn lemma_names()
    ensures
        is_plain_name("ControlMaster"@),
        is_plain_name("ControlPath"@),
        is_plain_name("ControlPersist"@),
        is_plain_name("RequestTTY"@),
        is_plain_name("SessionType"@),
        is_plain_name("LocalForward"@),
        is_plain_name("RemoteForward"@),
        is_plain_name("DynamicForward"@),
        is_plain_name("ForkAfterAuthentication"@),
        is_plain_name("RemoteCommand"@),
        is_plain_name("StdinNull"@),
{
    reveal_strlit("ControlMaster");
    reveal_strlit("ControlPath");
    reveal_strlit("ControlPersist");
    reveal_strlit("RequestTTY");
    reveal_strlit("SessionType");
    reveal_strlit("LocalForward");
    reveal_strlit("RemoteForward");
    reveal_strlit("DynamicForward");
    reveal_strlit("ForkAfterAuthentication");
    reveal_strlit("RemoteCommand");
    reveal_strlit("StdinNull");
}

proof fn lemma_master_keys(value: Seq<char>)
    ensures
        names_setting(setting_key(value), master_keys()) == sets_connection(value),
        names_setting(setting_key(value), recovery_keys()) == (sets_connection(value) || sets(
            value,
            "StdinNull"@,
        )),
{
    lemma_names();
    let key = setting_key(value);
    let keys = master_keys();
    let more = recovery_keys();
    lemma_sets(value, "ControlMaster"@);
    lemma_sets(value, "ControlPath"@);
    lemma_sets(value, "ControlPersist"@);
    lemma_sets(value, "RequestTTY"@);
    lemma_sets(value, "SessionType"@);
    lemma_sets(value, "LocalForward"@);
    lemma_sets(value, "RemoteForward"@);
    lemma_sets(value, "DynamicForward"@);
    lemma_sets(value, "ForkAfterAuthentication"@);
    lemma_sets(value, "RemoteCommand"@);
    lemma_sets(value, "StdinNull"@);
    assert(keys.len() == 10 && more.len() == 11);
    assert(keys[0] == "ControlMaster"@ && keys[1] == "ControlPath"@ && keys[2]
        == "ControlPersist"@);
    assert(keys[3] == "RequestTTY"@ && keys[4] == "SessionType"@ && keys[5] == "LocalForward"@);
    assert(keys[6] == "RemoteForward"@ && keys[7] == "DynamicForward"@);
    assert(keys[8] == "ForkAfterAuthentication"@ && keys[9] == "RemoteCommand"@);
    assert(more[10] == "StdinNull"@);
    assert forall|i: int| 0 <= i < 10 implies more[i] == keys[i] by {}
    if sets_connection(value) {
        let i = choose|i: int| 0 <= i < 10 && same_ignoring_case(key, #[trigger] keys[i]);
        assert(same_ignoring_case(key, keys[0]) || same_ignoring_case(key, keys[1])
            || same_ignoring_case(key, keys[2]) || same_ignoring_case(key, keys[3])
            || same_ignoring_case(key, keys[4]) || same_ignoring_case(key, keys[5])
            || same_ignoring_case(key, keys[6]) || same_ignoring_case(key, keys[7])
            || same_ignoring_case(key, keys[8]) || same_ignoring_case(key, keys[9]));
        assert(same_ignoring_case(key, more[i]));
    }
    if sets(value, "StdinNull"@) {
        assert(same_ignoring_case(key, more[10]));
    }
}

/// What is left out is exactly what belongs to the connection.
proof fn lemma_left_out(option: SshOption)
    ensures
        left_out(option, master_flags(), master_keys()) == belongs_to_connection(option),
        left_out(option, recovery_flags(), recovery_keys()) == belongs_to_session(option),
{
    reveal_strlit("SMNTtDLR");
    reveal_strlit("SMNnTtDLR");
    let m = master_flags();
    let r = recovery_flags();
    assert(m.len() == 8 && m[0] == 'S' && m[1] == 'M' && m[2] == 'N' && m[3] == 'T' && m[4] == 't'
        && m[5] == 'D' && m[6] == 'L' && m[7] == 'R');
    assert(r.len() == 9 && r[0] == 'S' && r[1] == 'M' && r[2] == 'N' && r[3] == 'n' && r[4] == 'T'
        && r[5] == 't' && r[6] == 'D' && r[7] == 'L' && r[8] == 'R');
    if let Some(value) = option.1 {
        lemma_master_keys(value);
    }
}

// ---------------------------------------------------------------------------
// The words of a connection
// ---------------------------------------------------------------------------

/// The arguments that stand for an option: its flag, and behind it its value.
pub open spec fn words_of(option: SshOption) -> Seq<Seq<char>> {
    let flag = Seq::<Seq<char>>::empty().push("-"@.push(option.0));
    match option.1 {
        Some(value) => flag.push(value),
        None => flag,
    }
}

/// The arguments of the options that a master takes over, in their order.
pub open spec fn route(options: Seq<SshOption>) -> Seq<Seq<char>>
    decreases options.len(),
{
    if options.len() == 0 {
        Seq::empty()
    } else {
        let front = route(options.drop_last());
        if belongs_to_connection(options.last()) {
            front
        } else {
            front + words_of(options.last())
        }
    }
}

/// The arguments of the options that a recovery takes over, in their order.
pub open spec fn recovery_route(options: Seq<SshOption>) -> Seq<Seq<char>>
    decreases options.len(),
{
    if options.len() == 0 {
        Seq::empty()
    } else {
        let front = recovery_route(options.drop_last());
        if belongs_to_session(options.last()) {
            front
        } else {
            front + words_of(options.last())
        }
    }
}

proof fn lemma_route(options: Seq<SshOption>)
    ensures
        kept_words(options, master_flags(), master_keys()) == route(options),
        kept_words(options, recovery_flags(), recovery_keys()) == recovery_route(options),
    decreases options.len(),
{
    if options.len() > 0 {
        lemma_route(options.drop_last());
        lemma_left_out(options.last());
        let a = route(options.drop_last());
        let b = recovery_route(options.drop_last());
        assert(a + Seq::<Seq<char>>::empty() =~= a);
        assert(b + Seq::<Seq<char>>::empty() =~= b);
    }
}

/// A setting as two arguments.
pub open spec fn setting(words: Seq<Seq<char>>, value: Seq<char>) -> Seq<Seq<char>> {
    words.push("-o"@).push(value)
}

/// What a master always says, before anything of the user's, so that it counts: it is a
/// private foreground master without a command, never asks, takes no new host key, and
/// forwards nothing.
pub open spec fn master_head(socket: Seq<char>) -> Seq<Seq<char>> {
    let a = Seq::<Seq<char>>::empty().push("-N"@).push("-T"@);
    let b = setting(setting(a, "ControlMaster=yes"@), "ControlPersist=no"@);
    let c = setting(setting(b, "BatchMode=yes"@), "StrictHostKeyChecking=yes"@);
    let d = setting(setting(c, "ServerAliveInterval=10"@), "ServerAliveCountMax=2"@);
    let e = setting(setting(d, "ClearAllForwardings=yes"@), "RequestTTY=no"@);
    let f = setting(setting(e, "SessionType=none"@), "ExitOnForwardFailure=yes"@);
    f.push("-S"@).push(socket)
}

/// What a recovery always says first: it has a terminal and a connection of its own,
/// takes no new host key, and forwards nothing.
pub open spec fn recovery_head() -> Seq<Seq<char>> {
    let a = Seq::<Seq<char>>::empty().push("-tt"@).push("-S"@).push("none"@);
    let b = setting(setting(a, "ControlMaster=no"@), "ControlPersist=no"@);
    let c = setting(setting(b, "ControlPath=none"@), "StrictHostKeyChecking=yes"@);
    let d = setting(setting(c, "ClearAllForwardings=yes"@), "RequestTTY=force"@);
    let e = setting(setting(d, "SessionType=default"@), "RemoteCommand=none"@);
    setting(setting(e, "ServerAliveInterval=10"@), "ServerAliveCountMax=2"@)
}

/// A command line: each word quoted, with a space between two.
pub open spec fn spoken(words: Seq<Seq<char>>) -> Seq<char>
    decreases words.len(),
{
    if words.len() == 0 {
        Seq::empty()
    } else if words.len() == 1 {
        quoted(words[0])
    } else {
        spoken(words.drop_last()) + " "@ + quoted(words.last())
    }
}

proof fn lemma_spoken(words: Seq<Seq<char>>)
    ensures
        quoted_line(words) == spoken(words),
    decreases words.len(),
{
    let mapped = words.map_values(|word: Seq<char>| quoted(word));
    if words.len() == 0 {
        assert(mapped =~= Seq::empty());
        assert(quoted_line(words) =~= spoken(words));
    } else {
        lemma_spoken(words.drop_last());
        assert(mapped.drop_last() =~= words.drop_last().map_values(
            |word: Seq<char>| quoted(word),
        ));
        assert(quoted_line(words) =~= spoken(words));
    }
}

/// The remote command of a recovery: on the managed server, if the workspace still has
/// this generation, its session is attached; else a message is shown. Nothing is started.
pub open spec fn attachment(id: Seq<char>, generation: Seq<char>) -> Seq<Seq<char>> {
    let session = "ew-"@ + id;
    Seq::<Seq<char>>::empty().push("tmux"@).push("-L"@).push("eternalwarp-workspaces-v1"@).push(
        "if-shell"@,
    ).push("-F"@).push("-t"@).push("=ew-"@ + id + ":0.0"@).push(
        "#{==:#{WARP_WORKSPACE_GENERATION},"@ + generation + "}"@,
    ).push(
        "set-option -t "@ + session + " status off ; set-option -w -t ="@ + session
            + ":0 window-size latest ; attach-session -t "@ + session,
    ).push("display-message -p 'Workspace was removed or replaced; nothing was started'"@)
}

/// The words behind a recovery's options: the destination, and the remote command as one.
pub open spec fn recovery_tail(
    destination: Seq<char>,
    id: Seq<char>,
    generation: Seq<char>,
) -> Seq<Seq<char>> {
    Seq::<Seq<char>>::empty().push("--"@).push(destination).push(
        spoken(attachment(id, generation)),
    )
}

/// The command line of a recovery: it runs in the recipe's directory, and its words are
/// what a recovery always says, the options of the route with their values, and the
/// destination with the remote command.
pub proof fn a_recovery_takes_the_route(
    recipe: SshRecipeView,
    id: Seq<char>,
    generation: Seq<char>,
)
    requires
        recipe_error(recipe) is None,
        is_token(id),
        is_token(generation),
    ensures
        ({
            let parsed = parsed_arguments(recipe.arguments)->Ok_0;
            recovery_line(recipe, id, generation) == Ok::<Seq<char>, Seq<char>>(
                "cd -- "@ + quoted(recipe.working_directory) + " && /usr/bin/ssh "@ + spoken(
                    recovery_head() + recovery_route(parsed.options) + recovery_tail(
                        parsed.destination,
                        id,
                        generation,
                    ),
                ),
            )
        }),
{
    let parsed = parsed_arguments(recipe.arguments)->Ok_0;
    lemma_route(parsed.options);
    reveal_strlit("=");
    reveal_strlit("ew-");
    reveal_strlit("=ew-");
    assert("="@ + "ew-"@ =~= "=ew-"@);
    assert(crate::workspace::sessions::target(id) =~= "=ew-"@ + id + ":0.0"@);
    assert(attach_words(id, generation) =~= attachment(id, generation));
    lemma_spoken(attach_words(id, generation));
    reveal_with_fuel(crate::ssh_recipe::setting_words, 11);
    lemma_recovery_head();
    let words = recovery_head() + recovery_route(parsed.options) + recovery_tail(
        parsed.destination,
        id,
        generation,
    );
    lemma_spoken(words);
    assert(crate::ssh_recipe::recovery_words(parsed, id, generation) =~= words);
}

proof fn lemma_setting_push(settings: Seq<Seq<char>>, value: Seq<char>)
    ensures
        crate::ssh_recipe::setting_words(settings.push(value)) == setting(
            crate::ssh_recipe::setting_words(settings),
            value,
        ),
{
    assert(settings.push(value).drop_last() =~= settings);
}

proof fn lemma_recovery_head()
    ensures
        Seq::<Seq<char>>::empty().push("-tt"@).push("-S"@).push("none"@)
            + crate::ssh_recipe::setting_words(crate::ssh_recipe::recovery_settings())
            == recovery_head(),
{
    let s0 = Seq::<Seq<char>>::empty();
    let s1 = s0.push("ControlMaster=no"@);
    let s2 = s1.push("ControlPersist=no"@);
    let s3 = s2.push("ControlPath=none"@);
    let s4 = s3.push("StrictHostKeyChecking=yes"@);
    let s5 = s4.push("ClearAllForwardings=yes"@);
    let s6 = s5.push("RequestTTY=force"@);
    let s7 = s6.push("SessionType=default"@);
    let s8 = s7.push("RemoteCommand=none"@);
    let s9 = s8.push("ServerAliveInterval=10"@);
    lemma_setting_push(s0, "ControlMaster=no"@);
    lemma_setting_push(s1, "ControlPersist=no"@);
    lemma_setting_push(s2, "ControlPath=none"@);
    lemma_setting_push(s3, "StrictHostKeyChecking=yes"@);
    lemma_setting_push(s4, "ClearAllForwardings=yes"@);
    lemma_setting_push(s5, "RequestTTY=force"@);
    lemma_setting_push(s6, "SessionType=default"@);
    lemma_setting_push(s7, "RemoteCommand=none"@);
    lemma_setting_push(s8, "ServerAliveInterval=10"@);
    lemma_setting_push(s9, "ServerAliveCountMax=2"@);
    let a = s0.push("-tt"@).push("-S"@).push("none"@);
    assert(a + crate::ssh_recipe::setting_words(crate::ssh_recipe::recovery_settings())
        =~= recovery_head());
}

proof fn lemma_master_head(socket: Seq<char>)
    ensures
        (Seq::<Seq<char>>::empty().push("-N"@).push("-T"@) + crate::ssh_recipe::setting_words(
            crate::ssh_recipe::master_settings(),
        )).push("-S"@).push(socket) == master_head(socket),
{
    let s0 = Seq::<Seq<char>>::empty();
    let s1 = s0.push("ControlMaster=yes"@);
    let s2 = s1.push("ControlPersist=no"@);
    let s3 = s2.push("BatchMode=yes"@);
    let s4 = s3.push("StrictHostKeyChecking=yes"@);
    let s5 = s4.push("ServerAliveInterval=10"@);
    let s6 = s5.push("ServerAliveCountMax=2"@);
    let s7 = s6.push("ClearAllForwardings=yes"@);
    let s8 = s7.push("RequestTTY=no"@);
    let s9 = s8.push("SessionType=none"@);
    lemma_setting_push(s0, "ControlMaster=yes"@);
    lemma_setting_push(s1, "ControlPersist=no"@);
    lemma_setting_push(s2, "BatchMode=yes"@);
    lemma_setting_push(s3, "StrictHostKeyChecking=yes"@);
    lemma_setting_push(s4, "ServerAliveInterval=10"@);
    lemma_setting_push(s5, "ServerAliveCountMax=2"@);
    lemma_setting_push(s6, "ClearAllForwardings=yes"@);
    lemma_setting_push(s7, "RequestTTY=no"@);
    lemma_setting_push(s8, "SessionType=none"@);
    lemma_setting_push(s9, "ExitOnForwardFailure=yes"@);
    let a = s0.push("-N"@).push("-T"@);
    assert((a + crate::ssh_recipe::setting_words(crate::ssh_recipe::master_settings())).push(
        "-S"@,
    ).push(socket) =~= master_head(socket));
}

/// The arguments of a master: what it always says, the options of the route with their
/// values, and the destination.
pub proof fn a_master_takes_the_route(arguments: Seq<Seq<char>>, socket: Seq<char>)
    requires
        parsed_arguments(arguments) is Ok,
    ensures
        ({
            let parsed = parsed_arguments(arguments)->Ok_0;
            master_words(parsed, socket) == (master_head(socket) + route(parsed.options)).push(
                "--"@,
            ).push(parsed.destination)
        }),
{
    let parsed = parsed_arguments(arguments)->Ok_0;
    lemma_route(parsed.options);
    lemma_master_head(socket);
    assert(master_words(parsed, socket) =~= (master_head(socket) + route(parsed.options)).push(
        "--"@,
    ).push(parsed.destination));
}

proof fn lemma_route_front(option: SshOption, options: Seq<SshOption>)
    ensures
        ({
            let all = Seq::<SshOption>::empty().push(option) + options;
            &&& route(all) == (if belongs_to_connection(option) {
                Seq::<Seq<char>>::empty()
            } else {
                words_of(option)
            }) + route(options)
            &&& recovery_route(all) == (if belongs_to_session(option) {
                Seq::<Seq<char>>::empty()
            } else {
                words_of(option)
            }) + recovery_route(options)
        }),
{
    let all = Seq::<SshOption>::empty().push(option) + options;
    lemma_route(all);
    lemma_route(options);
    lemma_left_out(option);
    lemma_kept_front(option, options, master_flags(), master_keys());
    lemma_kept_front(option, options, recovery_flags(), recovery_keys());
    assert(words_of(option) == option_words(option));
}

/// An option of the route stands in the line of the recovery and among the arguments of
/// the master, with its value: with one more such option in front of the user's
/// arguments, in whatever way it is given, the words are those without it, with the
/// option's words in front of those of the other options.
pub proof fn the_route_is_kept(
    recipe: SshRecipeView,
    entry: Seq<Seq<char>>,
    option: SshOption,
    id: Seq<char>,
    generation: Seq<char>,
    socket: Seq<char>,
)
    requires
        well_formed(option),
        spells(entry, option),
        recipe_error(recipe) is None,
        recipe_error(SshRecipeView { arguments: entry + recipe.arguments, ..recipe }) is None,
        is_token(id),
        is_token(generation),
    ensures
        ({
            let longer = SshRecipeView { arguments: entry + recipe.arguments, ..recipe };
            let parsed = parsed_arguments(recipe.arguments)->Ok_0;
            let more = parsed_arguments(longer.arguments)->Ok_0;
            let start = "cd -- "@ + quoted(recipe.working_directory) + " && /usr/bin/ssh "@;
            let tail = recovery_route(parsed.options) + recovery_tail(
                parsed.destination,
                id,
                generation,
            );
            let end = route(parsed.options).push("--"@).push(parsed.destination);
            &&& recovery_line(recipe, id, generation) == Ok::<Seq<char>, Seq<char>>(
                start + spoken(recovery_head() + tail),
            )
            &&& !belongs_to_session(option) ==> recovery_line(longer, id, generation) == Ok::<
                Seq<char>,
                Seq<char>,
            >(start + spoken(recovery_head() + words_of(option) + tail))
            &&& belongs_to_session(option) ==> recovery_line(longer, id, generation)
                == recovery_line(recipe, id, generation)
            &&& master_words(parsed, socket) == master_head(socket) + end
            &&& !belongs_to_connection(option) ==> master_words(more, socket) == master_head(
                socket,
            ) + words_of(option) + end
            &&& belongs_to_connection(option) ==> master_words(more, socket) == master_words(
                parsed,
                socket,
            )
        }),
{
    let longer = SshRecipeView { arguments: entry + recipe.arguments, ..recipe };
    let parsed = parsed_arguments(recipe.arguments)->Ok_0;
    let more = parsed_arguments(longer.arguments)->Ok_0;
    lemma_scan_entry(entry, option, recipe.arguments);
    assert(longer.arguments.last() == recipe.arguments.last());
    assert(more.destination == parsed.destination);
    assert(more.options == Seq::<SshOption>::empty().push(option) + parsed.options);
    lemma_route_front(option, parsed.options);
    a_recovery_takes_the_route(recipe, id, generation);
    a_recovery_takes_the_route(longer, id, generation);
    a_master_takes_the_route(recipe.arguments, socket);
    a_master_takes_the_route(longer.arguments, socket);
    let kept = recovery_route(parsed.options);
    let rest = recovery_tail(parsed.destination, id, generation);
    let none = Seq::<Seq<char>>::empty();
    assert(recovery_head() + kept + rest =~= recovery_head() + (kept + rest));
    assert(recovery_head() + (words_of(option) + kept) + rest =~= recovery_head() + words_of(option)
        + (kept + rest));
    assert(none + kept =~= kept);
    let own = route(parsed.options);
    let end = own.push("--"@).push(parsed.destination);
    assert((master_head(socket) + own).push("--"@).push(parsed.destination) =~= master_head(socket)
        + end);
    assert((master_head(socket) + (words_of(option) + own)).push("--"@).push(parsed.destination)
        =~= master_head(socket) + words_of(option) + end);
    assert(none + own =~= own);
}

// ---------------------------------------------------------------------------
// The options of ssh
// ---------------------------------------------------------------------------

/// The flags that take a value, those that take none, and those that are refused are
/// these, and no others.
pub proof fn these_are_the_flags(flag: char)
    ensures
        is_valued_flag(flag) <==> {
            ||| flag == 'B' || flag == 'b' || flag == 'c' || flag == 'D' || flag == 'E'
            ||| flag == 'e' || flag == 'F' || flag == 'I' || flag == 'i' || flag == 'J'
            ||| flag == 'L' || flag == 'l' || flag == 'm' || flag == 'o' || flag == 'p'
            ||| flag == 'R' || flag == 'S'
        },
        is_refused_flag(flag) <==> {
            ||| flag == 'O' || flag == 'G' || flag == 'Q' || flag == 'V' || flag == 'W'
            ||| flag == 'w' || flag == 'f'
        },
        is_plain_flag(flag) <==> {
            ||| flag == '1' || flag == '2' || flag == '4' || flag == '6' || flag == 'A'
            ||| flag == 'a' || flag == 'C' || flag == 'K' || flag == 'k' || flag == 'M'
            ||| flag == 'N' || flag == 'n' || flag == 'q' || flag == 's' || flag == 'T'
            ||| flag == 't' || flag == 'X' || flag == 'x' || flag == 'Y' || flag == 'y'
            ||| flag == 'v' || flag == 'g'
        },
{
    reveal_strlit("BbcDEeFIiJLlmopRS");
    reveal_strlit("OGQVWwf");
    reveal_strlit("1246AaCKkMNnqsTtXxYyvg");
    let v = "BbcDEeFIiJLlmopRS"@;
    let r = "OGQVWwf"@;
    let p = "1246AaCKkMNnqsTtXxYyvg"@;
    assert(v.len() == 17 && r.len() == 7 && p.len() == 22);
    assert(v[0] == 'B' && v[1] == 'b' && v[2] == 'c' && v[3] == 'D' && v[4] == 'E' && v[5] == 'e'
        && v[6] == 'F' && v[7] == 'I' && v[8] == 'i' && v[9] == 'J' && v[10] == 'L' && v[11] == 'l'
        && v[12] == 'm' && v[13] == 'o' && v[14] == 'p' && v[15] == 'R' && v[16] == 'S');
    assert(r[0] == 'O' && r[1] == 'G' && r[2] == 'Q' && r[3] == 'V' && r[4] == 'W' && r[5] == 'w'
        && r[6] == 'f');
    assert(p[0] == '1' && p[1] == '2' && p[2] == '4' && p[3] == '6' && p[4] == 'A' && p[5] == 'a'
        && p[6] == 'C' && p[7] == 'K' && p[8] == 'k' && p[9] == 'M' && p[10] == 'N' && p[11] == 'n'
        && p[12] == 'q' && p[13] == 's' && p[14] == 'T' && p[15] == 't' && p[16] == 'X' && p[17]
        == 'x' && p[18] == 'Y' && p[19] == 'y' && p[20] == 'v' && p[21] == 'g');
}

/// What is read of an argument does not depend on what stands before it.
proof fn lemma_cluster_shift(a: Seq<char>, i: int, b: Seq<char>, j: int, next: Option<Seq<char>>)
    requires
        0 <= i <= a.len(),
        0 <= j <= b.len(),
        a.skip(i) == b.skip(j),
    ensures
        cluster(a, i, next) == cluster(b, j, next),
    decreases a.len() - i,
{
    assert(a.skip(i).len() == a.len() - i && b.skip(j).len() == b.len() - j);
    if i < a.len() {
        assert(a.skip(i)[0] == a[i] && b.skip(j)[0] == b[j]);
        assert(a.skip(i + 1) =~= a.skip(i).drop_first());
        assert(b.skip(j + 1) =~= b.skip(j).drop_first());
        lemma_cluster_shift(a, i + 1, b, j + 1, next);
    }
}

/// Flags that are written together are read one after the other: the first may as well
/// stand in an argument of its own.
pub proof fn flags_may_stand_together(
    flag: char,
    rest: Seq<char>,
    arguments: Seq<Seq<char>>,
)
    requires
        is_plain_flag(flag),
        !is_valued_flag(flag),
        !is_refused_flag(flag),
        rest.len() > 0,
        rest[0] != '-',
    ensures
        ({
            let joined = Seq::<Seq<char>>::empty().push("-"@.push(flag) + rest) + arguments;
            let apart = Seq::<Seq<char>>::empty().push("-"@.push(flag)).push("-"@ + rest)
                + arguments;
            apart.len() <= MAX_ARGUMENTS ==> parsed_arguments(joined) == parsed_arguments(apart)
        }),
{
    reveal_strlit("-");
    reveal_strlit("--");
    let option = (flag, None::<Seq<char>>);
    let single = Seq::<Seq<char>>::empty().push("-"@.push(flag));
    let tail = Seq::<Seq<char>>::empty().push("-"@ + rest) + arguments;
    let joined = Seq::<Seq<char>>::empty().push("-"@.push(flag) + rest) + arguments;
    let apart = Seq::<Seq<char>>::empty().push("-"@.push(flag)).push("-"@ + rest) + arguments;
    lemma_flags(flag);
    assert(single =~= option_words(option));
    lemma_scan_entry(single, option, tail);
    assert(single + tail =~= apart);
    let word = "-"@.push(flag) + rest;
    let inner = "-"@ + rest;
    assert(joined[0] == word && tail[0] == inner);
    assert(word[0] == '-' && word[1] == flag && inner[0] == '-' && inner[1] == rest[0]);
    assert(word != "--"@ && inner != "--"@);
    assert(!ends_options(word) && !ends_options(inner));
    assert(word.skip(2) =~= inner.skip(1));
    let next = if arguments.len() > 0 {
        Some(arguments[0])
    } else {
        None
    };
    lemma_cluster_shift(word, 2, inner, 1, next);
    if arguments.len() > 0 {
        assert(joined[1] == arguments[0] && tail[1] == arguments[0]);
    }
    let one_word = Seq::<Seq<char>>::empty().push(word);
    let one_inner = Seq::<Seq<char>>::empty().push(inner);
    lemma_scan_shift(one_word, arguments, 0);
    lemma_scan_shift(one_inner, arguments, 0);
    lemma_scan_shift(one_word, arguments, 1);
    lemma_scan_shift(one_inner, arguments, 1);
    let none = Seq::<SshOption>::empty().push(option);
    if let Ok((options, used)) = cluster(inner, 1, next) {
        if let Ok((more, end)) = scan(arguments, if used { 1int } else { 0 }) {
            assert((none + options) + more =~= none + (options + more));
        }
    }
    if let Ok((options, end)) = scan(apart, 0) {
        if end < apart.len() && end >= 2 {
            assert(apart[end] == joined[end - 1]);
        }
    }
}

/// Arguments that are no interactive connection are refused: a refused or unknown option,
/// more than one destination, or a remote command behind it.
pub proof fn other_connections_are_refused(
    flag: char,
    rest: Seq<char>,
    arguments: Seq<Seq<char>>,
)
    ensures
        is_refused_flag(flag) || !is_valued_flag(flag) && !is_plain_flag(flag) && flag != '-'
            ==> parsed_arguments(
            Seq::<Seq<char>>::empty().push("-"@.push(flag) + rest) + arguments,
        ) is Err,
        arguments.len() > 1 && arguments[0].len() > 0 && arguments[0][0] != '-'
            ==> parsed_arguments(arguments) is Err,
        arguments.len() == 0 ==> parsed_arguments(arguments) is Err,
{
    reveal_strlit("-");
    reveal_strlit("--");
    these_are_the_flags(flag);
    let word = "-"@.push(flag) + rest;
    let all = Seq::<Seq<char>>::empty().push(word) + arguments;
    assert(all[0] == word && word[0] == '-' && word[1] == flag);
    if is_refused_flag(flag) || !is_valued_flag(flag) && !is_plain_flag(flag) && flag != '-' {
        assert(word != "--"@);
        assert(!ends_options(word));
    }
    if arguments.len() > 0 && arguments[0].len() > 0 && arguments[0][0] != '-' {
        assert("--"@[0] == '-');
    }
}

/// The bytes of all these texts.
pub open spec fn bytes_of(arguments: Seq<Seq<char>>) -> int
    decreases arguments.len(),
{
    if arguments.len() == 0 {
        0
    } else {
        encode_utf8(arguments[0]).len() + bytes_of(arguments.drop_first())
    }
}

proof fn lemma_bytes_of(arguments: Seq<Seq<char>>, last: Seq<char>)
    ensures
        bytes_of(arguments.push(last)) == bytes_of(arguments) + encode_utf8(last).len(),
    decreases arguments.len(),
{
    let more = arguments.push(last);
    if arguments.len() == 0 {
        assert(more.drop_first() =~= Seq::empty());
        assert(bytes_of(more.drop_first()) == 0);
        assert(more[0] == last);
    } else {
        assert(more[0] == arguments[0]);
        assert(more.drop_first() =~= arguments.drop_first().push(last));
        lemma_bytes_of(arguments.drop_first(), last);
    }
}

proof fn lemma_total(arguments: Seq<Seq<char>>)
    ensures
        total_bytes(arguments) == bytes_of(arguments),
    decreases arguments.len(),
{
    if arguments.len() > 0 {
        lemma_total(arguments.drop_last());
        lemma_bytes_of(arguments.drop_last(), arguments.last());
        assert(arguments.drop_last().push(arguments.last()) =~= arguments);
    }
}

/// A recipe is sound exactly where it runs in an absolute directory, no argument holds a
/// zero, all of them together are at most sixty-four kibibytes, and they are the arguments
/// of an interactive connection; what is wrong with the arguments is told.
pub proof fn sound_recipes(recipe: SshRecipeView)
    ensures
        recipe_error(recipe) is None <==> {
            &&& recipe.working_directory.len() > 0 && recipe.working_directory[0] == '/'
            &&& forall|i: int|
                0 <= i < recipe.arguments.len() ==> !(#[trigger] recipe.arguments[i]).contains('\0')
            &&& bytes_of(recipe.arguments) <= 64 * 1024
            &&& parsed_arguments(recipe.arguments) is Ok
        },
{
    lemma_total(recipe.arguments);
}

} // verus!
