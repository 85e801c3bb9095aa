//! Properties of reading version documents and assembling the class path,
//! stated without their definitions.

use vstd::prelude::*;
use crate::json::{Json, JsonMember, member_lookup};
use crate::launch::spec_classpath;
use crate::text::{join_with, lemma_split_on_nonempty, replace_all, split_on};
use crate::json::{array_in, get_in, str_in};
use crate::version::{
    entry_allowed, jvm_entries_of, libraries_of, library_path, maven_path, string_items,
};

verus! {

/// `c` does not occur in `s`.
pub open spec fn free_of(s: Seq<char>, c: char) -> bool {
    forall|j: int| 0 <= j < s.len() ==> #[trigger] s[j] != c
}

proof fn lemma_split_single(s: Seq<char>, sep: char)
    requires
        free_of(s, sep),
    ensures
        split_on(s, sep) == seq![s],
    decreases s.len(),
{
    if s.len() > 0 {
        let init = s.drop_last();
        assert(free_of(init, sep)) by {
            assert forall|j: int| 0 <= j < init.len() implies #[trigger] init[j] != sep by {
                assert(init[j] == s[j]);
            }
        }
        lemma_split_single(init, sep);
        assert(s[s.len() - 1] != sep);
        assert(init.push(s.last()) =~= s);
        assert(seq![init].update(0, init.push(s.last())) =~= seq![s]);
    } else {
        assert(s =~= Seq::<char>::empty());
    }
}

proof fn lemma_split_concat(x: Seq<char>, sep: char, y: Seq<char>)
    ensures
        split_on(x + seq![sep] + y, sep) == split_on(x, sep) + split_on(y, sep),
    decreases y.len(),
{
    lemma_split_on_nonempty(x, sep);
    lemma_split_on_nonempty(y, sep);
    let s = x + seq![sep] + y;
    if y.len() == 0 {
        assert(s.drop_last() =~= x);
        assert(s.last() == sep);
        assert(split_on(y, sep) =~= seq![Seq::<char>::empty()]);
        assert(split_on(x, sep).push(Seq::empty()) =~= split_on(x, sep) + seq![Seq::<char>::empty()]);
    } else {
        let y0 = y.drop_last();
        let c = y.last();
        lemma_split_concat(x, sep, y0);
        lemma_split_on_nonempty(y0, sep);
        assert(s.drop_last() =~= x + seq![sep] + y0);
        assert(s.last() == c);
        let a = split_on(x, sep);
        let b = split_on(y0, sep);
        if c == sep {
            assert((a + b).push(Seq::empty()) =~= a + b.push(Seq::empty()));
        } else {
            assert((a + b).update((a + b).len() - 1, (a + b).last().push(c)) =~= a + b.update(
                b.len() - 1,
                b.last().push(c),
            ));
        }
    }
}

/// A Maven coordinate `group:artifact:version` (parts without colons) is
/// found at `group-with-slashes/artifact/version/artifact-version.jar`.
pub proof fn law_maven_path_of_coordinate(g: Seq<char>, a: Seq<char>, v: Seq<char>)
    requires
        free_of(g, ':'),
        free_of(a, ':'),
        free_of(v, ':'),
    ensures
        maven_path(g + seq![':'] + a + seq![':'] + v) == Some(
            replace_all(g, seq!['.'], seq!['/']) + seq!['/'] + a + seq!['/'] + v + seq!['/'] + a
                + seq!['-'] + v + seq!['.', 'j', 'a', 'r'],
        ),
{
    lemma_split_single(g, ':');
    lemma_split_single(a, ':');
    lemma_split_single(v, ':');
    lemma_split_concat(a, ':', v);
    lemma_split_concat(g, ':', a + seq![':'] + v);
    assert(g + seq![':'] + a + seq![':'] + v =~= g + seq![':'] + (a + seq![':'] + v));
    let parts = split_on(g + seq![':'] + a + seq![':'] + v, ':');
    assert(parts =~= seq![g, a, v]);
}

/// A coordinate with a classifier, `group:artifact:version:classifier`, is
/// found at `.../artifact-version-classifier.jar`.
pub proof fn law_maven_path_with_classifier(g: Seq<char>, a: Seq<char>, v: Seq<char>, c: Seq<char>)
    requires
        free_of(g, ':'),
        free_of(a, ':'),
        free_of(v, ':'),
        free_of(c, ':'),
    ensures
        maven_path(g + seq![':'] + a + seq![':'] + v + seq![':'] + c) == Some(
            replace_all(g, seq!['.'], seq!['/']) + seq!['/'] + a + seq!['/'] + v + seq!['/'] + a
                + seq!['-'] + v + seq!['-'] + c + seq!['.', 'j', 'a', 'r'],
        ),
{
    lemma_split_single(g, ':');
    lemma_split_single(a, ':');
    lemma_split_single(v, ':');
    lemma_split_single(c, ':');
    lemma_split_concat(v, ':', c);
    lemma_split_concat(a, ':', v + seq![':'] + c);
    lemma_split_concat(g, ':', a + seq![':'] + (v + seq![':'] + c));
    assert(g + seq![':'] + a + seq![':'] + v + seq![':'] + c =~= g + seq![':'] + (a + seq![':']
        + (v + seq![':'] + c)));
    let parts = split_on(g + seq![':'] + a + seq![':'] + v + seq![':'] + c, ':');
    assert(parts =~= seq![g, a, v, c]);
}

/// A name with fewer than three parts has no Maven path.
pub proof fn law_maven_path_needs_three_parts(x: Seq<char>, y: Seq<char>)
    requires
        free_of(x, ':'),
        free_of(y, ':'),
    ensures
        maven_path(x) is None,
        maven_path(x + seq![':'] + y) is None,
{
    lemma_split_single(x, ':');
    lemma_split_single(y, ':');
    lemma_split_concat(x, ':', y);
}

proof fn lemma_join_then_split(parts: Seq<Seq<char>>, sep: char)
    requires
        parts.len() >= 1,
        forall|k: int| 0 <= k < parts.len() ==> free_of(#[trigger] parts[k], sep),
    ensures
        split_on(join_with(parts, seq![sep]), sep) == parts,
    decreases parts.len(),
{
    if parts.len() == 1 {
        lemma_split_single(parts[0], sep);
        assert(seq![parts[0]] =~= parts);
    } else {
        let init = parts.drop_last();
        assert forall|k: int| 0 <= k < init.len() implies free_of(#[trigger] init[k], sep) by {
            assert(init[k] == parts[k]);
        }
        lemma_join_then_split(init, sep);
        assert(free_of(parts[parts.len() - 1], sep));
        lemma_split_single(parts.last(), sep);
        lemma_split_concat(join_with(init, seq![sep]), sep, parts.last());
        assert(init + seq![parts.last()] =~= parts);
    }
}

/// The class path lists its entries, the libraries and then the client jar
/// when there is one, separated by `;`: splitting it on `;` gives them back
/// (when no entry holds a `;` and there is at least one).
pub proof fn law_classpath_lists_entries(jars: Seq<Seq<char>>, client_jar: Option<Seq<char>>)
    requires
        forall|k: int| 0 <= k < jars.len() ==> free_of(#[trigger] jars[k], ';'),
        client_jar matches Some(c) ==> free_of(c, ';'),
        jars.len() > 0 || client_jar is Some,
    ensures
        split_on(spec_classpath(jars, client_jar), ';') == match client_jar {
            Some(c) => jars.push(c),
            None => jars,
        },
{
    reveal_strlit(";");
    assert(";"@ =~= seq![';']);
    let entries = match client_jar {
        Some(c) => jars.push(c),
        None => jars,
    };
    assert forall|k: int| 0 <= k < entries.len() implies free_of(#[trigger] entries[k], ';') by {
        if k < jars.len() {
            assert(entries[k] == jars[k]);
        }
    }
    lemma_join_then_split(entries, ';');
}

/// Looking a key up in an object gives the value of the first member with
/// that key, and nothing when no member has it.
pub proof fn law_member_lookup(members: Seq<JsonMember>, key: Seq<char>)
    ensures
        member_lookup(members, key) matches Some(v) ==> exists|i: int|
            0 <= i < members.len() && (#[trigger] members[i]).key@ == key && members[i].value == v
                && forall|j: int| 0 <= j < i ==> members[j].key@ != key,
        member_lookup(members, key) is None ==> forall|i: int|
            0 <= i < members.len() ==> (#[trigger] members[i]).key@ != key,
    decreases members.len(),
{
    if members.len() > 0 {
        let rest = members.drop_first();
        law_member_lookup(rest, key);
        if members[0].key@ != key {
            if let Some(v) = member_lookup(members, key) {
                let i = choose|i: int|
                    0 <= i < rest.len() && (#[trigger] rest[i]).key@ == key && rest[i].value == v
                        && forall|j: int| 0 <= j < i ==> rest[j].key@ != key;
                assert(members[i + 1] == rest[i]);
                assert forall|j: int| 0 <= j < i + 1 implies members[j].key@ != key by {
                    if j > 0 {
                        assert(members[j] == rest[j - 1]);
                    }
                }
            } else {
                assert forall|i: int| 0 <= i < members.len() implies (#[trigger] members[i]).key@
                    != key by {
                    if i > 0 {
                        assert(members[i] == rest[i - 1]);
                    }
                }
            }
        } else {
            assert(members[0].key@ == key);
        }
    }
}


proof fn lemma_string_items_concat(a: Seq<Json>, b: Seq<Json>)
    ensures
        string_items(a + b) == string_items(a) + string_items(b),
    decreases b.len(),
{
    if b.len() == 0 {
        assert(a + b =~= a);
        assert(string_items(a) + string_items(b) =~= string_items(a));
    } else {
        lemma_string_items_concat(a, b.drop_last());
        assert((a + b).drop_last() =~= a + b.drop_last());
        assert((a + b).last() == b.last());
        match b.last() {
            Json::Str(s) => {
                assert((string_items(a) + string_items(b.drop_last())).push(s@) =~= string_items(a)
                    + string_items(b.drop_last()).push(s@));
            },
            _ => {},
        }
    }
}

/// The strings of an array are its string items, in order: a string item
/// stands for itself, any other item for nothing.
pub proof fn law_string_items(a: Seq<Json>, b: Seq<Json>, s: String, other: Json)
    requires
        !(other is Str),
    ensures
        string_items(a + b) == string_items(a) + string_items(b),
        string_items(seq![Json::Str(s)]) == seq![s@],
        string_items(seq![other]) == Seq::<Seq<char>>::empty(),
        string_items(Seq::empty()) == Seq::<Seq<char>>::empty(),
{
    lemma_string_items_concat(a, b);
    let one = seq![Json::Str(s)];
    let two = seq![other];
    assert(one.drop_last() =~= Seq::<Json>::empty());
    assert(two.drop_last() =~= Seq::<Json>::empty());
    assert(one.last() == Json::Str(s));
    assert(two.last() == other);
    assert(string_items(Seq::<Json>::empty()) =~= Seq::<Seq<char>>::empty());
    assert(string_items(one) == string_items(one.drop_last()).push(s@));
    assert(string_items(one) =~= seq![s@]);
    assert(string_items(two) == string_items(two.drop_last()));
}

proof fn lemma_jvm_entries_concat(a: Seq<Json>, b: Seq<Json>)
    ensures
        jvm_entries_of(a + b) == jvm_entries_of(a) + jvm_entries_of(b),
    decreases b.len(),
{
    if b.len() == 0 {
        assert(a + b =~= a);
        assert(jvm_entries_of(a) + jvm_entries_of(b) =~= jvm_entries_of(a));
    } else {
        lemma_jvm_entries_concat(a, b.drop_last());
        assert((a + b).drop_last() =~= a + b.drop_last());
        assert((a + b).last() == b.last());
    }
}

/// The JVM arguments of a list of entries are those of its parts, in order.
/// A string entry gives itself; an object entry whose rules leave it out
/// gives nothing; an object entry that applies gives its string `value`, or
/// the strings of its array `value`; any other entry gives nothing.
pub proof fn law_jvm_entries(a: Seq<Json>, b: Seq<Json>, entry: Json)
    ensures
        jvm_entries_of(a + b) == jvm_entries_of(a) + jvm_entries_of(b),
        entry matches Json::Str(s) ==> jvm_entries_of(seq![entry]) == seq![s@],
        (entry is Object && !entry_allowed(entry)) ==> jvm_entries_of(seq![entry]) == Seq::<
            Seq<char>,
        >::empty(),
        (entry is Object && entry_allowed(entry)) ==> (entry.field("value"@) matches Some(
            Json::Str(v),
        ) ==> jvm_entries_of(seq![entry]) == seq![v@]),
        (entry is Object && entry_allowed(entry)) ==> (entry.field("value"@) matches Some(
            Json::Array(vs),
        ) ==> jvm_entries_of(seq![entry]) == string_items(vs@)),
        !(entry is Object || entry is Str) ==> jvm_entries_of(seq![entry]) == Seq::<
            Seq<char>,
        >::empty(),
{
    lemma_jvm_entries_concat(a, b);
    let one = seq![entry];
    assert(one.drop_last() =~= Seq::<Json>::empty());
    assert(one.last() == entry);
    assert(jvm_entries_of(Seq::<Json>::empty()) =~= Seq::<Seq<char>>::empty());
    assert(jvm_entries_of(one) == jvm_entries_of(one.drop_last()) + crate::version::jvm_entry_values(
        one.last(),
    ));
    assert(jvm_entries_of(one) =~= crate::version::jvm_entry_values(entry));
}

/// Where a library lives: its `downloads.artifact.path` string when it has
/// one, else the Maven path of its `name` string, else nowhere.
pub proof fn law_library_path(item: Json)
    ensures
        str_in(get_in(get_in(item.field("downloads"@), "artifact"@), "path"@)) matches Some(p)
            ==> library_path(item) == Some(p),
        str_in(get_in(get_in(item.field("downloads"@), "artifact"@), "path"@)) is None ==> library_path(item) == match str_in(item.field("name"@)) {
            Some(n) => maven_path(n),
            None => None,
        },
{
}

/// A library that applies but whose location is unknown contributes nothing;
/// the list of several entries is the list of each, in order.
pub proof fn law_library_without_path_skipped(items: Seq<Json>, item: Json)
    requires
        library_path(item) is None,
    ensures
        libraries_of(items.push(item)) == libraries_of(items),
{
    assert(items.push(item).drop_last() =~= items);
}

/// A file name has the extension `jar` exactly when it ends in `.jar` after
/// at least one other character (a name that is only `.jar` is a hidden
/// file without extension).
pub proof fn law_jar_extension(name: Seq<char>)
    ensures
        crate::version::has_extension(name, "jar"@) <==> (name.len() >= 5 && name.skip(
            name.len() - 4,
        ) == ".jar"@),
{
    reveal_strlit("jar");
    reveal_strlit(".jar");
    if name.len() >= 5 && name.skip(name.len() - 4) == ".jar"@ {
        let k = name.len() - 4;
        assert(name.skip(k)[0] == name[k]);
        assert(name[k] == '.');
        assert forall|j: int| k < j < name.len() implies name[j] != '.' by {
            assert(name.skip(k)[j - k] == name[j]);
        }
        assert(name.skip(k + 1) =~= "jar"@) by {
            assert forall|j: int| 0 <= j < 3 implies name.skip(k + 1)[j] == "jar"@[j] by {
                assert(name.skip(k)[j + 1] == name[k + 1 + j]);
            }
        }
        assert(crate::version::has_extension(name, "jar"@));
    }
    if crate::version::has_extension(name, "jar"@) {
        let k = choose|k: int|
            0 < k < name.len() && name[k] == '.' && (forall|j: int| k < j < name.len() ==> name[j]
                != '.') && #[trigger] name.skip(k + 1) == "jar"@;
        assert(name.skip(k + 1).len() == 3);
        assert(k == name.len() - 4);
        assert(name.skip(name.len() - 4) =~= ".jar"@) by {
            assert forall|j: int| 0 <= j < 4 implies name.skip(k)[j] == ".jar"@[j] by {
                if j > 0 {
                    assert(name.skip(k + 1)[j - 1] == name[k + j]);
                }
            }
        }
    }
}

/// The game arguments of a version are the strings of its
/// `arguments.game` array, in order; a document without that array has
/// none. Its JVM arguments likewise come from `arguments.jvm` alone.
pub proof fn law_version_argument_lists(doc: Json, arguments: Json)
    requires
        doc.field("arguments"@) == Some(arguments),
    ensures
        forall|items: Vec<Json>|
            arguments.field("game"@) == Some(Json::Array(items)) ==> crate::version::version_game_args(
                doc,
            ) == string_items(items@),
        !(arguments.field("game"@) matches Some(Json::Array(_))) ==> crate::version::version_game_args(doc)
            == Seq::<Seq<char>>::empty(),
        forall|items: Vec<Json>|
            arguments.field("jvm"@) == Some(Json::Array(items)) ==> crate::version::declared_jvm_args(
                doc,
            ) == jvm_entries_of(items@),
        !(arguments.field("jvm"@) matches Some(Json::Array(_))) ==> crate::version::declared_jvm_args(doc)
            == Seq::<Seq<char>>::empty(),
{
}

} // verus!
