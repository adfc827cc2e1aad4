//! Paths on the host.

use crate::docker::definitions::{DockerErrorView, DockerModuleError};
use crate::text::{cat2, cat3, char_vec, has_prefix, join_texts, same, split_text, without_prefix};
use crate::text;
use vstd::prelude::*;

verus! {

/// Whether a path begins at the root.
pub open spec fn is_absolute(path: Seq<char>) -> bool {
    path.len() > 0 && path[0] == '/'
}

/// `path` as seen from `base`.
pub open spec fn path_join(base: Seq<char>, path: Seq<char>) -> Seq<char> {
    if is_absolute(path) || base.len() == 0 {
        path
    } else if base.last() == '/' {
        base + path
    } else {
        base + "/"@ + path
    }
}

/// Follows the components of a path: an empty one and `.` stay, `..` goes up,
/// or is kept where there is nothing to leave.
pub open spec fn walk_components(components: Seq<Seq<char>>) -> Seq<Seq<char>>
    decreases components.len(),
{
    if components.len() == 0 {
        Seq::empty()
    } else {
        let before = walk_components(components.drop_last());
        let last = components.last();
        if last == ""@ || last == "."@ {
            before
        } else if last == ".."@ && before.len() > 0 {
            before.drop_last()
        } else {
            before.push(last)
        }
    }
}

/// The path without empty components, `.` and, where they can be followed,
/// `..`.
pub open spec fn normalize(path: Seq<char>) -> Seq<char> {
    let walked = text::join(walk_components(text::split(path, '/')), "/"@);
    if is_absolute(path) {
        "/"@ + walked
    } else {
        walked
    }
}

/// A source with a leading `~` replaced by the home directory.
pub open spec fn expand_home(source: Seq<char>, home: Seq<char>) -> Seq<char> {
    match text::strip_prefix(source, "~/"@) {
        Some(rest) => path_join(home, rest),
        None => home,
    }
}

/// Whether a source begins in the home directory.
pub open spec fn in_home(source: Seq<char>) -> bool {
    source == "~"@ || text::starts_with(source, "~/"@)
}

/// The path on the host that a source in a compose file stands for.
pub open spec fn host_path(
    source: Seq<char>,
    compose_dir: Seq<char>,
    home: Option<Seq<char>>,
) -> Result<Seq<char>, DockerErrorView> {
    if in_home(source) && home is None {
        Err(
            DockerErrorView::InvalidVolumeSpec(
                "cannot expand ["@ + source + "]: HOME is not set"@,
            ),
        )
    } else {
        let expanded = if in_home(source) {
            expand_home(source, home->0)
        } else {
            source
        };
        Ok(normalize(path_join(compose_dir, expanded)))
    }
}

/// Whether a volume source is a path on the host and no volume name.
pub open spec fn names_host_path(source: Seq<char>) -> bool {
    ||| text::starts_with(source, "/"@)
    ||| text::starts_with(source, "./"@)
    ||| text::starts_with(source, "../"@)
    ||| in_home(source)
}

/// The text of an optional text.
pub open spec fn opt_str(text: Option<&str>) -> Option<Seq<char>> {
    match text {
        Some(inner) => Some(inner@),
        None => None,
    }
}

/// Whether a volume source is a path on the host and no volume name.
pub fn is_host_path(source: &str) -> (yes: bool)
    ensures
        yes == names_host_path(source@),
{
    has_prefix(source, "/") || has_prefix(source, "./") || has_prefix(source, "../") || same(
        source,
        "~",
    ) || has_prefix(source, "~/")
}

/// `path` as seen from `base`.
pub fn join_path(base: &str, path: &str) -> (joined: String)
    ensures
        joined@ == path_join(base@, path@),
{
    let base_chars = char_vec(base);
    let path_chars = char_vec(path);
    if (path_chars.len() > 0 && path_chars[0] == '/') || base_chars.len() == 0 {
        path.to_owned()
    } else if base_chars[base_chars.len() - 1] == '/' {
        cat2(base, path)
    } else {
        cat3(base, "/", path)
    }
}

/// Removes what a path does not need.
fn normalize_path(path: &str) -> (normal: String)
    ensures
        normal@ == normalize(path@),
{
    let components = split_text(path, '/');
    let ghost all = text::texts(components@);
    let mut walked: Vec<String> = Vec::new();
    let mut i: usize = 0;
    assert(text::texts(walked@) =~= walk_components(all.take(0)));
    while i < components.len()
        invariant
            i <= components@.len(),
            all == text::texts(components@),
            text::texts(walked@) == walk_components(all.take(i as int)),
        decreases components@.len() - i,
    {
        let component = components[i].as_str();
        assert(all.take(i + 1).drop_last() =~= all.take(i as int));
        assert(all.take(i + 1).last() == component@);
        let ghost before = text::texts(walked@);
        assert(before.len() == walked@.len());
        if same(component, "") || same(component, ".") {
        } else if same(component, "..") && walked.len() > 0 {
            walked.pop();
            assert(text::texts(walked@) =~= before.drop_last());
        } else {
            walked.push(components[i].clone());
            assert(text::texts(walked@) =~= before.push(component@));
        }
        i += 1;
    }
    assert(all.take(i as int) =~= all);
    let joined = join_texts(&walked, "/");
    let chars = char_vec(path);
    if chars.len() > 0 && chars[0] == '/' {
        cat2("/", &joined)
    } else {
        joined
    }
}

/// Resolves a source in a compose file to a path on the host: `~` stands for
/// `home`, anything relative for something below `compose_dir`.
pub fn resolve_host_path(source: &str, compose_dir: &str, home: Option<&str>) -> (result: Result<
    String,
    DockerModuleError,
>)
    ensures
        match result {
            Ok(path) => host_path(source@, compose_dir@, opt_str(home)) == Ok::<
                Seq<char>,
                DockerErrorView,
            >(path@),
            Err(error) => host_path(source@, compose_dir@, opt_str(home)) == Err::<
                Seq<char>,
                DockerErrorView,
            >(error@),
        },
{
    let expanded = if same(source, "~") || has_prefix(source, "~/") {
        match home {
            None => {
                return Err(
                    DockerModuleError::InvalidVolumeSpec(
                        cat3("cannot expand [", source, "]: HOME is not set"),
                    ),
                );
            },
            Some(home_dir) => match without_prefix(source, "~/") {
                Some(rest) => join_path(home_dir, &rest),
                None => home_dir.to_owned(),
            },
        }
    } else {
        source.to_owned()
    };
    Ok(normalize_path(&join_path(compose_dir, &expanded)))
}

// ---------------------------------------------------------------------------
// Laws of paths
// ---------------------------------------------------------------------------

/// Whether following the components changes nothing.
spec fn settled(components: Seq<Seq<char>>) -> bool {
    forall|i: int|
        0 <= i < components.len() ==> {
            &&& #[trigger] components[i] != ""@
            &&& components[i] != "."@
            &&& (components[i] == ".."@ ==> i == 0)
            &&& !components[i].contains('/')
        }
}

proof fn lemma_walk_settles(components: Seq<Seq<char>>)
    requires
        forall|i: int| 0 <= i < components.len() ==> !(#[trigger] components[i]).contains('/'),
    ensures
        settled(walk_components(components)),
    decreases components.len(),
{
    if components.len() > 0 {
        let init = components.drop_last();
        assert forall|i: int| 0 <= i < init.len() implies !(#[trigger] init[i]).contains('/') by {
            assert(init[i] == components[i]);
        }
        lemma_walk_settles(init);
        assert(!components[components.len() - 1].contains('/'));
    }
}

proof fn lemma_settled_stays(components: Seq<Seq<char>>)
    requires
        settled(components),
    ensures
        walk_components(components) == components,
    decreases components.len(),
{
    if components.len() > 0 {
        let init = components.drop_last();
        assert forall|i: int| 0 <= i < init.len() implies {
            &&& #[trigger] init[i] != ""@
            &&& init[i] != "."@
            &&& (init[i] == ".."@ ==> i == 0)
            &&& !init[i].contains('/')
        } by {
            assert(init[i] == components[i]);
        }
        lemma_settled_stays(init);
        let last = components[components.len() - 1];
        assert(init.push(last) =~= components);
    }
}

/// An empty component in front changes nothing.
proof fn lemma_walk_leading_empty(components: Seq<Seq<char>>)
    ensures
        walk_components(seq![Seq::<char>::empty()] + components) == walk_components(components),
    decreases components.len(),
{
    let longer = seq![Seq::<char>::empty()] + components;
    reveal_strlit("");
    if components.len() == 0 {
        assert(longer.drop_last() =~= Seq::empty());
        assert(longer.last() == Seq::<char>::empty());
        assert(""@ =~= Seq::<char>::empty());
        reveal_with_fuel(walk_components, 2);
    } else {
        assert(longer.drop_last() =~= seq![Seq::<char>::empty()] + components.drop_last());
        lemma_walk_leading_empty(components.drop_last());
    }
}

/// A resolved path is settled: an absolute path that came out of the resolution
/// resolves to itself, whatever the directory and the home.
pub proof fn resolved_path_is_stable(
    path: Seq<char>,
    compose_dir: Seq<char>,
    home: Option<Seq<char>>,
)
    requires
        is_absolute(path),
    ensures
        host_path(normalize(path), compose_dir, home) == Ok::<Seq<char>, DockerErrorView>(
            normalize(path),
        ),
{
    reveal_strlit("/");
    reveal_strlit("~");
    reveal_strlit("~/");
    reveal_strlit("");
    let components = text::split(path, '/');
    text::lemma_split_pieces(path, '/');
    let walked = walk_components(components);
    lemma_walk_settles(components);
    lemma_settled_stays(walked);
    let normal = normalize(path);
    assert("/"@ =~= seq!['/']);
    assert(normal[0] == '/');
    let again = seq![Seq::<char>::empty()] + (if walked.len() == 0 {
        seq![Seq::<char>::empty()]
    } else {
        walked
    });
    assert forall|i: int| 0 <= i < again.len() implies !(#[trigger] again[i]).contains('/') by {
        if i > 0 && walked.len() > 0 {
            assert(again[i] == walked[i - 1]);
        }
    }
    lemma_join_leading_empty(if walked.len() == 0 {
        seq![Seq::<char>::empty()]
    } else {
        walked
    });
    if walked.len() == 0 {
        assert(text::join(seq![Seq::<char>::empty()], seq!['/']) =~= Seq::empty());
        assert(text::join(walked, seq!['/']) =~= Seq::empty());
    }
    assert(text::join(again, seq!['/']) =~= normal);
    text::split_inverts_join(again, '/');
    assert(text::split(normal, '/') == again);
    if walked.len() == 0 {
        lemma_walk_leading_empty(seq![Seq::<char>::empty()]);
        lemma_walk_leading_empty(Seq::empty());
        assert(seq![Seq::<char>::empty()] + Seq::<Seq<char>>::empty() =~= seq![
            Seq::<char>::empty(),
        ]);
    } else {
        lemma_walk_leading_empty(walked);
    }
    assert(walk_components(again) == walked);
    assert(normalize(normal) =~= normal);
    assert(!text::starts_with(normal, "~/"@)) by {
        if text::starts_with(normal, "~/"@) {
            assert(normal.take(2)[0] == "~/"@[0]);
        }
    }
    assert(normal != "~"@) by {
        assert("~"@[0] == '~');
    }
}

/// An empty piece in front puts a separator in front.
proof fn lemma_join_leading_empty(pieces: Seq<Seq<char>>)
    requires
        pieces.len() >= 1,
    ensures
        text::join(seq![Seq::<char>::empty()] + pieces, seq!['/']) == seq!['/'] + text::join(
            pieces,
            seq!['/'],
        ),
    decreases pieces.len(),
{
    let longer = seq![Seq::<char>::empty()] + pieces;
    assert(longer.drop_last() =~= seq![Seq::<char>::empty()] + pieces.drop_last());
    if pieces.len() == 1 {
        assert(pieces.drop_last() =~= Seq::empty());
        assert(longer.drop_last() =~= seq![Seq::<char>::empty()]);
        assert(text::join(longer.drop_last(), seq!['/']) =~= Seq::empty());
        assert(text::join(longer, seq!['/']) =~= seq!['/'] + pieces[0]);
    } else {
        lemma_join_leading_empty(pieces.drop_last());
        assert(text::join(longer, seq!['/']) =~= seq!['/'] + text::join(pieces, seq!['/']));
    }
}

proof fn lemma_walk_same_front(one: Seq<Seq<char>>, other: Seq<Seq<char>>, tail: Seq<Seq<char>>)
    requires
        walk_components(one) == walk_components(other),
    ensures
        walk_components(one + tail) == walk_components(other + tail),
    decreases tail.len(),
{
    if tail.len() == 0 {
        assert(one + tail =~= one);
        assert(other + tail =~= other);
    } else {
        assert((one + tail).drop_last() =~= one + tail.drop_last());
        assert((other + tail).drop_last() =~= other + tail.drop_last());
        lemma_walk_same_front(one, other, tail.drop_last());
    }
}

/// A dot in a path says nothing, and neither does an empty component.
pub proof fn dots_say_nothing(front: Seq<char>, tail: Seq<char>)
    ensures
        normalize(front + "/./"@ + tail) == normalize(front + "/"@ + tail),
        normalize(front + "//"@ + tail) == normalize(front + "/"@ + tail),
{
    reveal_strlit("/./");
    reveal_strlit("//");
    reveal_strlit("/");
    reveal_strlit(".");
    reveal_strlit("");
    let start = text::split(front, '/');
    let end = text::split(tail, '/');
    let slash = seq!['/'];
    text::sides_split_on_their_own(front, tail, '/');
    assert(front + "/"@ + tail =~= front + slash + tail);
    text::sides_split_on_their_own(front, seq!['.'], '/');
    text::whole_text_is_not_cut(seq!['.'], '/');
    text::sides_split_on_their_own(front + slash + seq!['.'], tail, '/');
    assert(front + "/./"@ + tail =~= front + slash + seq!['.'] + slash + tail);
    let dotted = start + seq![seq!['.']];
    assert("."@ =~= seq!['.']);
    assert(dotted.drop_last() =~= start);
    lemma_walk_same_front(dotted, start, end);
    let nothing = Seq::<char>::empty();
    text::sides_split_on_their_own(front, nothing, '/');
    text::whole_text_is_not_cut(nothing, '/');
    text::sides_split_on_their_own(front + slash + nothing, tail, '/');
    assert(front + "//"@ + tail =~= front + slash + nothing + slash + tail);
    let doubled = start + seq![nothing];
    assert(""@ =~= nothing);
    assert(doubled.drop_last() =~= start);
    lemma_walk_same_front(doubled, start, end);
}

/// Two dots take back the name before them.
pub proof fn two_dots_take_back_a_name(front: Seq<char>, name: Seq<char>, tail: Seq<char>)
    requires
        !name.contains('/'),
        name.len() > 0,
        name != "."@,
        name != ".."@,
    ensures
        normalize(front + "/"@ + name + "/../"@ + tail) == normalize(front + "/"@ + tail),
{
    reveal_strlit("/../");
    reveal_strlit("/");
    reveal_strlit("..");
    reveal_strlit(".");
    reveal_strlit("");
    let start = text::split(front, '/');
    let end = text::split(tail, '/');
    let slash = seq!['/'];
    let dots = seq!['.', '.'];
    text::sides_split_on_their_own(front, tail, '/');
    assert(front + "/"@ + tail =~= front + slash + tail);
    text::sides_split_on_their_own(front, name, '/');
    text::whole_text_is_not_cut(name, '/');
    text::whole_text_is_not_cut(dots, '/');
    text::sides_split_on_their_own(front + slash + name, dots, '/');
    text::sides_split_on_their_own(front + slash + name + slash + dots, tail, '/');
    assert(front + "/"@ + name + "/../"@ + tail =~= front + slash + name + slash + dots + slash
        + tail);
    let named = start + seq![name];
    let back = named + seq![dots];
    assert(".."@ =~= dots);
    assert(named.drop_last() =~= start);
    assert(back.drop_last() =~= named);
    assert(walk_components(named) == walk_components(start).push(name));
    assert(walk_components(back) =~= walk_components(start));
    lemma_walk_same_front(back, start, end);
}

/// An absolute path of plain names stays as it is.
pub proof fn plain_paths_stay(names: Seq<Seq<char>>)
    requires
        names.len() > 0,
        forall|i: int|
            0 <= i < names.len() ==> {
                &&& (#[trigger] names[i]).len() > 0
                &&& names[i] != "."@
                &&& names[i] != ".."@
                &&& !names[i].contains('/')
            },
    ensures
        normalize(seq!['/'] + text::join(names, seq!['/'])) == seq!['/'] + text::join(
            names,
            seq!['/'],
        ),
{
    reveal_strlit("");
    reveal_strlit("/");
    assert("/"@ =~= seq!['/']);
    let whole = seq![Seq::<char>::empty()] + names;
    assert forall|i: int| 0 <= i < whole.len() implies !(#[trigger] whole[i]).contains('/') by {
        if i > 0 {
            assert(whole[i] == names[i - 1]);
        }
    }
    lemma_join_leading_empty(names);
    text::split_inverts_join(whole, '/');
    lemma_walk_leading_empty(names);
    assert(settled(names));
    lemma_settled_stays(names);
}

/// A path on the host stands against the directory of the compose file: an
/// absolute one as it is, one in the home under the home, and any other under
/// the directory.
pub proof fn host_paths_stand_where_they_belong(
    source: Seq<char>,
    compose_dir: Seq<char>,
    home: Seq<char>,
)
    ensures
        forall|any: Option<Seq<char>>|
            source.len() > 0 && source[0] == '/' ==> #[trigger] host_path(source, compose_dir, any)
                == Ok::<Seq<char>, DockerErrorView>(normalize(source)),
        forall|any: Option<Seq<char>>|
            source.len() > 0 && source[0] != '/' && source[0] != '~' && compose_dir.len() > 0
                && compose_dir.last() != '/' ==> #[trigger] host_path(source, compose_dir, any)
                == Ok::<Seq<char>, DockerErrorView>(
                normalize(compose_dir + seq!['/'] + source),
            ),
        home.len() > 0 && home[0] == '/' ==> host_path("~"@, compose_dir, Some(home)) == Ok::<
            Seq<char>,
            DockerErrorView,
        >(normalize(home)),
        home.len() > 0 && home[0] == '/' && home.last() != '/' && source.len() > 0 && source[0]
            != '/' ==> host_path("~/"@ + source, compose_dir, Some(home)) == Ok::<
            Seq<char>,
            DockerErrorView,
        >(normalize(home + seq!['/'] + source)),
        host_path("~"@, compose_dir, None) == Err::<Seq<char>, DockerErrorView>(
            DockerErrorView::InvalidVolumeSpec("cannot expand [~]: HOME is not set"@),
        ),
        host_path("~/"@ + source, compose_dir, None) == Err::<Seq<char>, DockerErrorView>(
            DockerErrorView::InvalidVolumeSpec(
                "cannot expand [~/"@ + source + "]: HOME is not set"@,
            ),
        ),
{
    reveal_strlit("/");
    reveal_strlit("~");
    reveal_strlit("~/");
    reveal_strlit("cannot expand [");
    reveal_strlit("]: HOME is not set");
    reveal_strlit("cannot expand [~]: HOME is not set");
    reveal_strlit("cannot expand [~/");
    assert("/"@ =~= seq!['/']);
    if source.len() > 0 && source[0] != '~' {
        assert(source != "~"@);
        if text::starts_with(source, "~/"@) {
            assert(source.take(2)[0] == "~/"@[0]);
        }
    }
    assert(!text::starts_with("~"@, "~/"@));
    let under = "~/"@ + source;
    assert(under.take(2) =~= "~/"@);
    assert(under.skip(2) =~= source);
    assert("cannot expand ["@ + "~"@ + "]: HOME is not set"@
        =~= "cannot expand [~]: HOME is not set"@);
    assert("cannot expand ["@ + under + "]: HOME is not set"@ =~= "cannot expand [~/"@ + source
        + "]: HOME is not set"@);
    if home.len() > 0 && source.len() > 0 {
        assert((home + seq!['/'] + source)[0] == home[0]);
    }
}

/// A path is on the host exactly where it begins with a slash, with one or two
/// dots and a slash, or with the tilde, alone or with a slash.
pub proof fn host_paths_are_told_by_their_beginning(source: Seq<char>)
    ensures
        names_host_path(source) <==> {
            ||| source.len() >= 1 && source[0] == '/'
            ||| source.len() >= 2 && source[0] == '.' && source[1] == '/'
            ||| source.len() >= 3 && source[0] == '.' && source[1] == '.' && source[2] == '/'
            ||| source.len() == 1 && source[0] == '~'
            ||| source.len() >= 2 && source[0] == '~' && source[1] == '/'
        },
{
    reveal_strlit("/");
    reveal_strlit("./");
    reveal_strlit("../");
    reveal_strlit("~");
    reveal_strlit("~/");
    if source.len() >= 1 {
        assert(source.take(1)[0] == source[0]);
        if source[0] == '/' {
            assert(source.take(1) =~= "/"@);
        }
        if source.len() == 1 && source[0] == '~' {
            assert(source =~= "~"@);
        }
    }
    if source.len() >= 2 {
        assert(source.take(2)[0] == source[0] && source.take(2)[1] == source[1]);
        if source[0] == '.' && source[1] == '/' {
            assert(source.take(2) =~= "./"@);
        }
        if source[0] == '~' && source[1] == '/' {
            assert(source.take(2) =~= "~/"@);
        }
    }
    if source.len() >= 3 {
        assert(source.take(3)[0] == source[0] && source.take(3)[1] == source[1] && source.take(
            3,
        )[2] == source[2]);
        if source[0] == '.' && source[1] == '.' && source[2] == '/' {
            assert(source.take(3) =~= "../"@);
        }
    }
}

/// A path is put behind its base with one slash between them; an absolute one
/// stays as it is, and so does one without a base.
pub proof fn paths_are_put_behind_their_base(base: Seq<char>, path: Seq<char>)
    ensures
        path.len() > 0 && path[0] == '/' ==> path_join(base, path) == path,
        path_join(Seq::empty(), path) == path,
        (path.len() > 0 ==> path[0] != '/') && base.len() > 0 && base.last() != '/' ==> path_join(
            base,
            path,
        ) == base + seq!['/'] + path && path_join(base + seq!['/'], path) == base + seq!['/']
            + path,
{
    reveal_strlit("/");
    assert("/"@ =~= seq!['/']);
    if path.len() > 0 {
        assert(path.take(1)[0] == path[0]);
        if path[0] == '/' {
            assert(path.take(1) =~= "/"@);
        }
    }
}

} // verus!
