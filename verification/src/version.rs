//! What a Minecraft version document (`versions/<id>/<id>.json`) asks of a
//! Windows launcher: which libraries go on the class path, which JVM and
//! game arguments it declares.

use vstd::prelude::*;
use crate::json::{Json, array_in, get_in, str_in};
use crate::text::{
    char_vecs_view, from_chars, lemma_split_on_nonempty, push_all, replace, replace_all,
    replace_chars,
    split_chars, split_on, strings_view, to_chars,
};

verus! {

// ---------------------------------------------------------------- rules

/// What one rule says about this (Windows) machine: `Some(allowed)` when the
/// rule carries a string `action` and an `os` object with a string `name`.
/// A rule naming Windows allows when its action is `allow`; a rule naming any
/// other system allows when its action is `disallow`.
pub open spec fn rule_verdict(rule: Json) -> Option<bool> {
    match (str_in(rule.field("action"@)), rule.field("os"@)) {
        (Some(action), Some(os)) => if os is Object {
            match str_in(os.field("name"@)) {
                Some(name) => Some(
                    if name == "windows"@ {
                        action == "allow"@
                    } else {
                        action == "disallow"@
                    },
                ),
                None => None,
            }
        } else {
            None
        },
        _ => None,
    }
}

/// A list of rules allows an entry unless its last rule that has a verdict
/// disallows it; with no such rule the entry is allowed.
pub open spec fn rules_allow(rules: Seq<Json>) -> bool
    decreases rules.len(),
{
    if rules.len() == 0 {
        true
    } else {
        match rule_verdict(rules.last()) {
            Some(v) => v,
            None => rules_allow(rules.drop_last()),
        }
    }
}

/// Whether an entry (a library or a JVM argument object) applies here: its
/// `rules` array allows it, or it has no `rules` array.
pub open spec fn entry_allowed(entry: Json) -> bool {
    match array_in(entry.field("rules"@)) {
        Some(rules) => rules_allow(rules),
        None => true,
    }
}

fn rule_verdict_of(rule: &Json) -> (r: Option<bool>)
    ensures
        r == rule_verdict(*rule),
{
    let action = match rule.get("action") {
        Some(a) => match a.as_str() {
            Some(s) => s,
            None => return None,
        },
        None => return None,
    };
    let os = match rule.get("os") {
        Some(o) => o,
        None => return None,
    };
    if !os.is_object() {
        return None;
    }
    let name = match os.get("name") {
        Some(n) => match n.as_str() {
            Some(s) => s,
            None => return None,
        },
        None => return None,
    };
    if *name == "windows".to_owned() {
        Some(*action == "allow".to_owned())
    } else {
        Some(*action == "disallow".to_owned())
    }
}

fn rules_allow_all(rules: &Vec<Json>) -> (r: bool)
    ensures
        r == rules_allow(rules@),
{
    let mut allowed = true;
    let mut i: usize = 0;
    assert(rules@.take(0) =~= Seq::<Json>::empty());
    while i < rules.len()
        invariant
            i <= rules.len(),
            allowed == rules_allow(rules@.take(i as int)),
        decreases rules.len() - i,
    {
        assert(rules@.take(i + 1).drop_last() =~= rules@.take(i as int));
        assert(rules@.take(i + 1).last() == rules@[i as int]);
        match rule_verdict_of(&rules[i]) {
            Some(v) => {
                allowed = v;
            },
            None => {},
        }
        i = i + 1;
    }
    assert(rules@.take(rules.len() as int) =~= rules@);
    allowed
}

/// Whether an entry applies on this machine.
pub fn is_entry_allowed(entry: &Json) -> (r: bool)
    ensures
        r == entry_allowed(*entry),
{
    match entry.get("rules") {
        Some(rs) => match rs.as_array() {
            Some(rules) => rules_allow_all(rules),
            None => true,
        },
        None => true,
    }
}

// ------------------------------------------------------------ libraries

/// The optional view of an optional string.
pub open spec fn opt_view(o: Option<String>) -> Option<Seq<char>> {
    match o {
        Some(s) => Some(s@),
        None => None,
    }
}

/// The Maven repository path of a library coordinate `group:artifact:version`
/// or `group:artifact:version:classifier`: the group with dots turned into
/// slashes, then `artifact/version/artifact-version[-classifier].jar`.
/// Coordinates with fewer than three parts give no path.
pub open spec fn maven_path(name: Seq<char>) -> Option<Seq<char>> {
    let parts = split_on(name, ':');
    if parts.len() >= 3 {
        let group = replace_all(parts[0], seq!['.'], seq!['/']);
        let classifier = if parts.len() == 4 {
            seq!['-'] + parts[3]
        } else {
            Seq::empty()
        };
        Some(
            group + seq!['/'] + parts[1] + seq!['/'] + parts[2] + seq!['/'] + parts[1] + seq!['-']
                + parts[2] + classifier + seq!['.', 'j', 'a', 'r'],
        )
    } else {
        None
    }
}

/// Where a library lives below the libraries directory: its
/// `downloads.artifact.path` when that is a string, else the Maven path of
/// its `name`.
pub open spec fn library_path(item: Json) -> Option<Seq<char>> {
    match str_in(get_in(get_in(item.field("downloads"@), "artifact"@), "path"@)) {
        Some(p) => Some(p),
        None => match str_in(item.field("name"@)) {
            Some(n) => maven_path(n),
            None => None,
        },
    }
}

/// The paths of the libraries among `items` that apply here, in order.
pub open spec fn libraries_of(items: Seq<Json>) -> Seq<Seq<char>>
    decreases items.len(),
{
    if items.len() == 0 {
        Seq::empty()
    } else {
        let rest = libraries_of(items.drop_last());
        let item = items.last();
        if entry_allowed(item) {
            match library_path(item) {
                Some(p) => rest.push(p),
                None => rest,
            }
        } else {
            rest
        }
    }
}

/// The library paths a version document lists for this machine.
pub open spec fn version_libraries(doc: Json) -> Seq<Seq<char>> {
    match array_in(doc.field("libraries"@)) {
        Some(items) => libraries_of(items),
        None => Seq::empty(),
    }
}

/// The Maven path of a library coordinate.
pub fn maven_library_path(name: &String) -> (r: Option<String>)
    ensures
        opt_view(r) == maven_path(name@),
{
    let chars = to_chars(name.as_str());
    let parts = split_chars(&chars, ':');
    proof {
        lemma_split_on_nonempty(name@, ':');
    }
    let ghost pv = char_vecs_view(parts@);
    if parts.len() < 3 {
        return None;
    }
    assert(parts@[0]@ == pv[0] && parts@[1]@ == pv[1] && parts@[2]@ == pv[2]);
    let mut dot: Vec<char> = Vec::new();
    dot.push('.');
    let mut slash: Vec<char> = Vec::new();
    slash.push('/');
    let mut out = replace_chars(&parts[0], &dot, &slash);
    out.push('/');
    push_all(&mut out, &parts[1]);
    out.push('/');
    push_all(&mut out, &parts[2]);
    out.push('/');
    push_all(&mut out, &parts[1]);
    out.push('-');
    push_all(&mut out, &parts[2]);
    if parts.len() == 4 {
        assert(parts@[3]@ == pv[3]);
        out.push('-');
        push_all(&mut out, &parts[3]);
    }
    out.push('.');
    out.push('j');
    out.push('a');
    out.push('r');
    assert(dot@ =~= seq!['.']);
    assert(slash@ =~= seq!['/']);
    assert(Some(out@) =~= maven_path(name@));
    Some(from_chars(&out))
}

fn library_path_of(item: &Json) -> (r: Option<String>)
    ensures
        opt_view(r) == library_path(*item),
{
    let artifact_path = match item.get("downloads") {
        Some(d) => match d.get("artifact") {
            Some(a) => match a.get("path") {
                Some(p) => p.as_str(),
                None => None,
            },
            None => None,
        },
        None => None,
    };
    match artifact_path {
        Some(p) => Some(p.clone()),
        None => match item.get("name") {
            Some(n) => match n.as_str() {
                Some(name) => maven_library_path(name),
                None => None,
            },
            None => None,
        },
    }
}

/// The library paths listed by `items` that apply here.
pub fn library_paths(items: &Vec<Json>) -> (r: Vec<String>)
    ensures
        strings_view(r@) == libraries_of(items@),
{
    let mut out: Vec<String> = Vec::new();
    let mut i: usize = 0;
    assert(items@.take(0) =~= Seq::<Json>::empty());
    assert(strings_view(out@) =~= libraries_of(items@.take(0)));
    while i < items.len()
        invariant
            i <= items.len(),
            strings_view(out@) == libraries_of(items@.take(i as int)),
        decreases items.len() - i,
    {
        assert(items@.take(i + 1).drop_last() =~= items@.take(i as int));
        assert(items@.take(i + 1).last() == items@[i as int]);
        let ghost before = strings_view(out@);
        if is_entry_allowed(&items[i]) {
            match library_path_of(&items[i]) {
                Some(p) => {
                    out.push(p);
                    assert(strings_view(out@) =~= before.push(out@.last()@));
                },
                None => {},
            }
        }
        i = i + 1;
    }
    assert(items@.take(items.len() as int) =~= items@);
    out
}

/// The library paths (relative to the libraries directory) that a version
/// document puts on the class path of this machine.
pub fn get_libraries_from_json(doc: &Json) -> (r: Vec<String>)
    ensures
        strings_view(r@) == version_libraries(*doc),
{
    match doc.get("libraries") {
        Some(l) => match l.as_array() {
            Some(items) => library_paths(items),
            None => Vec::new(),
        },
        None => {
            let v: Vec<String> = Vec::new();
            assert(strings_view(v@) =~= Seq::<Seq<char>>::empty());
            v
        },
    }
}


/// Whether a file name has the extension `ext` in the sense of
/// `Path::extension`: the text after the name's last dot, when that dot is
/// not its first character.
pub open spec fn has_extension(name: Seq<char>, ext: Seq<char>) -> bool {
    exists|k: int|
        0 < k < name.len() && name[k] == '.' && (forall|j: int| k < j < name.len() ==> name[j]
            != '.') && #[trigger] name.skip(k + 1) == ext
}

/// Whether a file name is that of a Java archive (extension `jar`).
pub fn is_jar_file_name(name: &str) -> (r: bool)
    ensures
        r == has_extension(name@, "jar"@),
{
    proof {
        reveal_strlit("jar");
    }
    let c = to_chars(name);
    let n = c.len();
    let r = n >= 5 && c[n - 4] == '.' && c[n - 3] == 'j' && c[n - 2] == 'a' && c[n - 1] == 'r';
    proof {
        if r {
            let k = n - 4;
            assert(name@.skip(k + 1) =~= "jar"@);
            assert(forall|j: int| k < j < name@.len() ==> name@[j] != '.');
        } else {
            if has_extension(name@, "jar"@) {
                let k = choose|k: int|
                    0 < k < name@.len() && name@[k] == '.' && (forall|j: int|
                        k < j < name@.len() ==> name@[j] != '.') && #[trigger] name@.skip(k + 1)
                        == "jar"@;
                assert(name@.skip(k + 1).len() == 3);
                assert(name@.skip(k + 1)[0] == 'j' && name@.skip(k + 1)[1] == 'a'
                    && name@.skip(k + 1)[2] == 'r');
            }
        }
    }
    r
}

// ------------------------------------------------------------ arguments

/// The string items of an array, in order; other items are passed over.
pub open spec fn string_items(items: Seq<Json>) -> Seq<Seq<char>>
    decreases items.len(),
{
    if items.len() == 0 {
        Seq::empty()
    } else {
        let rest = string_items(items.drop_last());
        match items.last() {
            Json::Str(s) => rest.push(s@),
            _ => rest,
        }
    }
}

/// The arguments one entry of `arguments.jvm` contributes: a string stands
/// for itself; an object that applies here contributes its `value`, a string
/// or the strings of an array; anything else contributes nothing.
pub open spec fn jvm_entry_values(entry: Json) -> Seq<Seq<char>> {
    match entry {
        Json::Str(s) => seq![s@],
        Json::Object(_) => if entry_allowed(entry) {
            match entry.field("value"@) {
                Some(Json::Str(v)) => seq![v@],
                Some(Json::Array(vs)) => string_items(vs@),
                _ => Seq::empty(),
            }
        } else {
            Seq::empty()
        },
        _ => Seq::empty(),
    }
}

/// The arguments all of `items` contribute, in order.
pub open spec fn jvm_entries_of(items: Seq<Json>) -> Seq<Seq<char>>
    decreases items.len(),
{
    if items.len() == 0 {
        Seq::empty()
    } else {
        jvm_entries_of(items.drop_last()) + jvm_entry_values(items.last())
    }
}

/// The JVM arguments a version document declares, before substitution.
pub open spec fn declared_jvm_args(doc: Json) -> Seq<Seq<char>> {
    match array_in(get_in(doc.field("arguments"@), "jvm"@)) {
        Some(items) => jvm_entries_of(items),
        None => Seq::empty(),
    }
}

/// One argument with the launcher's placeholders filled in, in this order:
/// `${library_directory}`, `${natives_directory}`, `${classpath_separator}`
/// (a `;`, the Windows class path separator) and `${version_name}`.
pub open spec fn substitute(
    arg: Seq<char>,
    libraries_dir: Seq<char>,
    natives_dir: Seq<char>,
    version_id: Seq<char>,
) -> Seq<char> {
    replace_all(
        replace_all(
            replace_all(
                replace_all(arg, "${library_directory}"@, libraries_dir),
                "${natives_directory}"@,
                natives_dir,
            ),
            "${classpath_separator}"@,
            seq![';'],
        ),
        "${version_name}"@,
        version_id,
    )
}

/// The JVM arguments of a version document, placeholders filled in.
pub open spec fn version_jvm_args(
    doc: Json,
    libraries_dir: Seq<char>,
    natives_dir: Seq<char>,
    version_id: Seq<char>,
) -> Seq<Seq<char>> {
    declared_jvm_args(doc).map_values(
        |a: Seq<char>| substitute(a, libraries_dir, natives_dir, version_id),
    )
}

/// The game arguments a version document declares: the strings of
/// `arguments.game`.
pub open spec fn version_game_args(doc: Json) -> Seq<Seq<char>> {
    match array_in(get_in(doc.field("arguments"@), "game"@)) {
        Some(items) => string_items(items),
        None => Seq::empty(),
    }
}

/// Appends the string items of `items` to `out`.
fn push_string_items(out: &mut Vec<String>, items: &Vec<Json>)
    ensures
        strings_view(final(out)@) == strings_view(old(out)@) + string_items(items@),
{
    let mut i: usize = 0;
    assert(items@.take(0) =~= Seq::<Json>::empty());
    assert(strings_view(out@) =~= strings_view(old(out)@) + string_items(items@.take(0)));
    while i < items.len()
        invariant
            i <= items.len(),
            strings_view(out@) == strings_view(old(out)@) + string_items(items@.take(i as int)),
        decreases items.len() - i,
    {
        assert(items@.take(i + 1).drop_last() =~= items@.take(i as int));
        assert(items@.take(i + 1).last() == items@[i as int]);
        let ghost before = strings_view(out@);
        match items[i].as_str() {
            Some(s) => {
                out.push(s.clone());
                assert(strings_view(out@) =~= before.push(s@));
            },
            None => {},
        }
        i = i + 1;
        assert(strings_view(out@) =~= strings_view(old(out)@) + string_items(items@.take(i as int)));
    }
    assert(items@.take(items.len() as int) =~= items@);
}

fn push_jvm_entry(out: &mut Vec<String>, entry: &Json)
    ensures
        strings_view(final(out)@) == strings_view(old(out)@) + jvm_entry_values(*entry),
{
    match entry.as_str() {
        Some(s) => {
            out.push(s.clone());
            assert(strings_view(out@) =~= strings_view(old(out)@) + seq![s@]);
            return ;
        },
        None => {},
    }
    if !entry.is_object() {
        assert(strings_view(out@) =~= strings_view(old(out)@) + Seq::<Seq<char>>::empty());
        return ;
    }
    if !is_entry_allowed(entry) {
        assert(strings_view(out@) =~= strings_view(old(out)@) + Seq::<Seq<char>>::empty());
        return ;
    }
    match entry.get("value") {
        Some(value) => {
            match value.as_str() {
                Some(s) => {
                    out.push(s.clone());
                    assert(strings_view(out@) =~= strings_view(old(out)@) + seq![s@]);
                },
                None => match value.as_array() {
                    Some(vs) => {
                        push_string_items(out, vs);
                    },
                    None => {
                        assert(strings_view(out@) =~= strings_view(old(out)@) + Seq::<
                            Seq<char>,
                        >::empty());
                    },
                },
            }
        },
        None => {
            assert(strings_view(out@) =~= strings_view(old(out)@) + Seq::<Seq<char>>::empty());
        },
    }
}

/// The JVM arguments a version document declares, before substitution.
pub fn declared_jvm_arguments(doc: &Json) -> (r: Vec<String>)
    ensures
        strings_view(r@) == declared_jvm_args(*doc),
{
    let mut out: Vec<String> = Vec::new();
    let items = match doc.get("arguments") {
        Some(a) => match a.get("jvm") {
            Some(j) => match j.as_array() {
                Some(items) => items,
                None => {
                    assert(strings_view(out@) =~= Seq::<Seq<char>>::empty());
                    return out;
                },
            },
            None => {
                assert(strings_view(out@) =~= Seq::<Seq<char>>::empty());
                return out;
            },
        },
        None => {
            assert(strings_view(out@) =~= Seq::<Seq<char>>::empty());
            return out;
        },
    };
    let mut i: usize = 0;
    assert(items@.take(0) =~= Seq::<Json>::empty());
    assert(strings_view(out@) =~= jvm_entries_of(items@.take(0)));
    while i < items.len()
        invariant
            i <= items.len(),
            strings_view(out@) == jvm_entries_of(items@.take(i as int)),
        decreases items.len() - i,
    {
        assert(items@.take(i + 1).drop_last() =~= items@.take(i as int));
        assert(items@.take(i + 1).last() == items@[i as int]);
        push_jvm_entry(&mut out, &items[i]);
        i = i + 1;
    }
    assert(items@.take(items.len() as int) =~= items@);
    out
}

/// One argument with the placeholders filled in.
pub fn substitute_placeholders(
    arg: &str,
    libraries_dir: &str,
    natives_dir: &str,
    version_id: &str,
) -> (r: String)
    ensures
        r@ == substitute(arg@, libraries_dir@, natives_dir@, version_id@),
{
    proof {
        reveal_strlit("${library_directory}");
        reveal_strlit("${natives_directory}");
        reveal_strlit("${classpath_separator}");
        reveal_strlit("${version_name}");
        reveal_strlit(";");
    }
    let a = replace(arg, "${library_directory}", libraries_dir);
    let b = replace(a.as_str(), "${natives_directory}", natives_dir);
    let c = replace(b.as_str(), "${classpath_separator}", ";");
    assert(";"@ =~= seq![';']);
    replace(c.as_str(), "${version_name}", version_id)
}

/// The JVM arguments a version document declares, with the libraries
/// directory, the natives directory, the class path separator and the version
/// name filled in.
pub fn get_jvm_args_from_json(
    doc: &Json,
    libraries_dir: &str,
    natives_dir: &str,
    version_id: &str,
) -> (r: Vec<String>)
    ensures
        strings_view(r@) == version_jvm_args(*doc, libraries_dir@, natives_dir@, version_id@),
{
    let raw = declared_jvm_arguments(doc);
    let mut out: Vec<String> = Vec::new();
    let mut i: usize = 0;
    while i < raw.len()
        invariant
            i <= raw.len(),
            strings_view(raw@) == declared_jvm_args(*doc),
            strings_view(out@) == strings_view(raw@).take(i as int).map_values(
                |a: Seq<char>| substitute(a, libraries_dir@, natives_dir@, version_id@),
            ),
        decreases raw.len() - i,
    {
        let s = substitute_placeholders(raw[i].as_str(), libraries_dir, natives_dir, version_id);
        assert(strings_view(raw@)[i as int] == raw@[i as int]@);
        let ghost before = strings_view(out@);
        out.push(s);
        assert(strings_view(out@) =~= before.push(s@));
        i = i + 1;
        assert(strings_view(out@) =~= strings_view(raw@).take(i as int).map_values(
            |a: Seq<char>| substitute(a, libraries_dir@, natives_dir@, version_id@),
        ));
    }
    assert(strings_view(raw@).take(raw.len() as int) =~= strings_view(raw@));
    out
}

/// The game arguments a version document declares.
pub fn get_game_args_from_json(doc: &Json) -> (r: Vec<String>)
    ensures
        strings_view(r@) == version_game_args(*doc),
{
    let mut out: Vec<String> = Vec::new();
    assert(strings_view(out@) =~= Seq::<Seq<char>>::empty());
    match doc.get("arguments") {
        Some(a) => match a.get("game") {
            Some(g) => match g.as_array() {
                Some(items) => {
                    push_string_items(&mut out, items);
                    assert(strings_view(out@) =~= string_items(items@));
                },
                None => {},
            },
            None => {},
        },
        None => {},
    }
    out
}

} // verus!
