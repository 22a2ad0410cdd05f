//! What the expansion of a file comes to: the text of the file with each sourced file expanded in
//! its place, whatever the files hold.
use vstd::prelude::*;
use vstd::utf8::*;

use crate::paths;
use crate::text;
use crate::utils;
use crate::utils::{ConfigParseError, ErrorView, ExpansionView, FileView, Span, Step, StepView};

verus! {

/// What the files hold and which texts can be parsed.
pub struct World<I, P> {
    pub read: spec_fn(Seq<char>) -> Result<Seq<char>, I>,
    pub parse: spec_fn(Seq<char>, Seq<char>) -> Result<(), P>,
}

/// The table of the sourced paths.
pub type Sourced = Map<Seq<Seq<char>>, bool>;

/// What an expansion comes to: a text or an error, and the table that it leaves.
pub type Outcome<I, P> = (Result<Seq<char>, ErrorView<I, P>>, Sourced);

/// What expanding the file at `path` comes to; `None` where files source each other more than
/// `depth` levels deep.
pub open spec fn expanded<I, P>(
    world: World<I, P>,
    path: Seq<char>,
    sourced_paths: Sourced,
    depth: nat,
) -> Option<Outcome<I, P>>
    decreases depth, 1int, 0int,
{
    match (world.read)(path) {
        Err(e) => Some((Err(ErrorView::IoError(e)), sourced_paths)),
        Ok(content) => match paths::path_parent(path) {
            None => Some((Err(ErrorView::NoParent(path)), sourced_paths)),
            Some(base) => expanded_from(
                world,
                FileView::opened(path, base, content, utils::source_spans_of(content)),
                sourced_paths,
                depth,
            ),
        },
    }
}

/// What the rest of a file comes to.
pub open spec fn expanded_from<I, P>(
    world: World<I, P>,
    file: FileView,
    sourced_paths: Sourced,
    depth: nat,
) -> Option<Outcome<I, P>>
    decreases depth, 0int, file.spans.len() - file.next,
{
    if file.next >= file.spans.len() {
        Some((Ok(file.completed()), sourced_paths))
    } else {
        let path = file.source_path();
        let key = paths::path_components(path);
        let started = sourced_paths.insert(key, true);
        if utils::in_progress(sourced_paths, path) {
            Some((Err(ErrorView::CircularSourceError(file.path, path)), started))
        } else if depth == 0 {
            None
        } else {
            match expanded(world, path, started, (depth - 1) as nat) {
                None => None,
                Some((Err(e), left)) => Some((Err(e), left)),
                Some((Ok(sourced_content), left)) => {
                    let done = left.insert(key, false);
                    match (world.parse)(file.path, sourced_content) {
                        Err(e) => Some((Err(ErrorView::ParseError(e)), done)),
                        Ok(_) => expanded_from(
                            world,
                            file.up_to_source().past_source(sourced_content),
                            done,
                            depth,
                        ),
                    }
                },
            }
        }
    }
}

/// The expansion after the world has answered what it waits for.
pub open spec fn turn<I, P>(world: World<I, P>, state: ExpansionView<I, P>) -> ExpansionView<I, P> {
    match state.step {
        StepView::Read(path) => state.after_read((world.read)(path)),
        StepView::Parse { name, text } => state.after_parse((world.parse)(name, text)),
        StepView::Finished(_) => state,
    }
}

/// The expansion after the world has answered `turns` times.
pub open spec fn run<I, P>(
    world: World<I, P>,
    state: ExpansionView<I, P>,
    turns: nat,
) -> ExpansionView<I, P>
    decreases turns,
{
    if turns == 0 {
        state
    } else {
        run(world, turn(world, state), (turns - 1) as nat)
    }
}

proof fn run_on<I, P>(world: World<I, P>, state: ExpansionView<I, P>, first: nat, second: nat)
    ensures
        run(world, run(world, state, first), second) == run(world, state, first + second),
    decreases first,
{
    if first > 0 {
        run_on(world, turn(world, state), (first - 1) as nat, second);
    }
}

/// The expansion that has just handed the text of an inner file to the files outside.
spec fn handed_over<I, P>(files: Seq<FileView>, text: Seq<char>, sourced_paths: Sourced)
    -> ExpansionView<I, P> {
    if files.len() == 0 {
        ExpansionView { files, sourced_paths, step: StepView::Finished(Ok(text)) }
    } else {
        ExpansionView {
            files,
            sourced_paths: sourced_paths.insert(
                paths::path_components(files.last().pending),
                false,
            ),
            step: StepView::Parse { name: files.last().path, text },
        }
    }
}

/// Whether a state is one in which the inner file has come to `outcome`.
spec fn arrived<I, P>(
    state: ExpansionView<I, P>,
    files: Seq<FileView>,
    outcome: Outcome<I, P>,
) -> bool {
    match outcome.0 {
        Ok(text) => state == handed_over::<I, P>(files, text, outcome.1),
        Err(e) => state.step == StepView::<I, P>::Finished(Err(e)) && state.sourced_paths
            == outcome.1,
    }
}

proof fn file_arrives<I, P>(world: World<I, P>, state: ExpansionView<I, P>, depth: nat) -> (turns:
    nat)
    requires
        state.step is Read,
        expanded(world, state.step->Read_0, state.sourced_paths, depth) is Some,
    ensures
        arrived(
            run(world, state, turns),
            state.files,
            expanded(world, state.step->Read_0, state.sourced_paths, depth)->0,
        ),
    decreases depth, 1int, 0int,
{
    let path = state.step->Read_0;
    reveal_with_fuel(run, 2);
    match (world.read)(path) {
        Err(e) => 1,
        Ok(content) => match paths::path_parent(path) {
            None => 1,
            Some(base) => {
                let file = FileView::opened(path, base, content, utils::source_spans_of(content));
                let opened = ExpansionView { files: state.files.push(file), ..state };
                assert(opened.files.drop_last() =~= state.files);
                let turns = rest_arrives(world, opened, depth);
                assert(turn(world, state) == opened.advanced());
                turns + 1
            },
        },
    }
}

proof fn rest_arrives<I, P>(world: World<I, P>, state: ExpansionView<I, P>, depth: nat) -> (turns:
    nat)
    requires
        state.files.len() > 0,
        expanded_from(world, state.files.last(), state.sourced_paths, depth) is Some,
    ensures
        arrived(
            run(world, state.advanced(), turns),
            state.files.drop_last(),
            expanded_from(world, state.files.last(), state.sourced_paths, depth)->0,
        ),
    decreases depth, 0int, state.files.last().spans.len() - state.files.last().next,
{
    let file = state.files.last();
    let outer = state.files.drop_last();
    let path = file.source_path();
    reveal_with_fuel(run, 2);
    if file.next >= file.spans.len() || utils::in_progress(state.sourced_paths, path) {
        0
    } else {
        let inner = state.advanced();
        let first = file_arrives(world, inner, (depth - 1) as nat);
        let outcome = expanded(world, path, inner.sourced_paths, (depth - 1) as nat)->0;
        match outcome.0 {
            Err(e) => first,
            Ok(sourced_content) => {
                let back = run(world, inner, first);
                let waiting = file.up_to_source();
                assert(inner.files.last() == waiting);
                assert(inner.files.drop_last() =~= outer);
                run_on(world, inner, first, 1);
                match (world.parse)(file.path, sourced_content) {
                    Err(e) => first + 1,
                    Ok(_) => {
                        let resumed = ExpansionView {
                            files: outer.push(waiting.past_source(sourced_content)),
                            ..back
                        };
                        assert(turn(world, back) == resumed.advanced());
                        assert(resumed.files.drop_last() =~= outer);
                        let second = rest_arrives(world, resumed, depth);
                        run_on(world, inner, first + 1, second);
                        first + 1 + second
                    },
                }
            },
        }
    }
}

/// Answered by the world until it waits for nothing, an expansion finishes with what expanding
/// its file comes to, and leaves the table that this leaves.
pub proof fn expansion_finishes<I, P>(
    world: World<I, P>,
    path: Seq<char>,
    sourced_paths: Sourced,
    depth: nat,
)
    requires
        expanded(world, path, sourced_paths, depth) is Some,
    ensures
        exists|turns: nat|
            {
                let end = #[trigger] run(
                    world,
                    ExpansionView::<I, P>::started(path, sourced_paths),
                    turns,
                );
                let outcome = expanded(world, path, sourced_paths, depth)->0;
                end.step == StepView::<I, P>::Finished(outcome.0) && end.sourced_paths == outcome.1
            },
{
    let start = ExpansionView::<I, P>::started(path, sourced_paths);
    let turns = file_arrives(world, start, depth);
    let end = run(world, start, turns);
    let outcome = expanded(world, path, sourced_paths, depth)->0;
    assert(end.step == StepView::<I, P>::Finished(outcome.0) && end.sourced_paths == outcome.1);
}

/// Whether two tables record the same paths as being in progress.
pub open spec fn same_in_progress(a: Sourced, b: Sourced) -> bool {
    forall|key: Seq<Seq<char>>|
        #![trigger a.get(key)]
        #![trigger b.get(key)]
        (a.get(key) == Some(true)) == (b.get(key) == Some(true))
}

/// An expansion that comes to a text leaves the same paths in progress as it found.
pub proof fn progress_is_restored<I, P>(
    world: World<I, P>,
    path: Seq<char>,
    sourced_paths: Sourced,
    depth: nat,
)
    ensures
        expanded(world, path, sourced_paths, depth) matches Some((Ok(_), left))
            ==> same_in_progress(sourced_paths, left),
    decreases depth, 1int, 0int,
{
    if let Ok(content) = (world.read)(path) {
        if let Some(base) = paths::path_parent(path) {
            let file = FileView::opened(path, base, content, utils::source_spans_of(content));
            progress_is_restored_from(world, file, sourced_paths, depth);
        }
    }
}

proof fn progress_is_restored_from<I, P>(
    world: World<I, P>,
    file: FileView,
    sourced_paths: Sourced,
    depth: nat,
)
    ensures
        expanded_from(world, file, sourced_paths, depth) matches Some((Ok(_), left))
            ==> same_in_progress(sourced_paths, left),
    decreases depth, 0int, file.spans.len() - file.next,
{
    let path = file.source_path();
    let key = paths::path_components(path);
    if file.next < file.spans.len() && !utils::in_progress(sourced_paths, path) && depth > 0 {
        let started = sourced_paths.insert(key, true);
        progress_is_restored(world, path, started, (depth - 1) as nat);
        if let Some((Ok(sourced_content), left)) = expanded(
            world,
            path,
            started,
            (depth - 1) as nat,
        ) {
            let done = left.insert(key, false);
            let resumed = file.up_to_source().past_source(sourced_content);
            progress_is_restored_from(world, resumed, done, depth);
            assert forall|k: Seq<Seq<char>>|
                (#[trigger] sourced_paths.get(k) == Some(true)) == (done.get(k) == Some(true)) by {
                assert((started.get(k) == Some(true)) == (left.get(k) == Some(true)));
            }
            if let Some((Ok(_), end)) = expanded_from(world, file, sourced_paths, depth) {
                assert forall|k: Seq<Seq<char>>|
                    (#[trigger] sourced_paths.get(k) == Some(true)) == (end.get(k) == Some(
                        true,
                    )) by {
                    assert((done.get(k) == Some(true)) == (end.get(k) == Some(true)));
                }
                assert(same_in_progress(sourced_paths, end));
            }
        }
    }
}

/// What an expansion comes to does not depend on how deep it was allowed to go.
pub proof fn depth_does_not_matter<I, P>(
    world: World<I, P>,
    path: Seq<char>,
    sourced_paths: Sourced,
    depth: nat,
    deeper: nat,
)
    requires
        depth <= deeper,
        expanded(world, path, sourced_paths, depth) is Some,
    ensures
        expanded(world, path, sourced_paths, deeper) == expanded(
            world,
            path,
            sourced_paths,
            depth,
        ),
    decreases depth, 1int, 0int,
{
    if let Ok(content) = (world.read)(path) {
        if let Some(base) = paths::path_parent(path) {
            let file = FileView::opened(path, base, content, utils::source_spans_of(content));
            depth_does_not_matter_from(world, file, sourced_paths, depth, deeper);
        }
    }
}

proof fn depth_does_not_matter_from<I, P>(
    world: World<I, P>,
    file: FileView,
    sourced_paths: Sourced,
    depth: nat,
    deeper: nat,
)
    requires
        depth <= deeper,
        expanded_from(world, file, sourced_paths, depth) is Some,
    ensures
        expanded_from(world, file, sourced_paths, deeper) == expanded_from(
            world,
            file,
            sourced_paths,
            depth,
        ),
    decreases depth, 0int, file.spans.len() - file.next,
{
    let path = file.source_path();
    let key = paths::path_components(path);
    if file.next < file.spans.len() && !utils::in_progress(sourced_paths, path) {
        let started = sourced_paths.insert(key, true);
        depth_does_not_matter(world, path, started, (depth - 1) as nat, (deeper - 1) as nat);
        if let Some((Ok(sourced_content), left)) = expanded(
            world,
            path,
            started,
            (depth - 1) as nat,
        ) {
            if (world.parse)(file.path, sourced_content) is Ok {
                let done = left.insert(key, false);
                let resumed = file.up_to_source().past_source(sourced_content);
                depth_does_not_matter_from(world, resumed, done, depth, deeper);
            }
        }
    }
}

/// A file without `source` statements expands to its own text.
pub proof fn plain_file_is_kept<I, P>(
    world: World<I, P>,
    path: Seq<char>,
    content: Seq<char>,
    sourced_paths: Sourced,
    depth: nat,
)
    requires
        (world.read)(path) == Ok::<Seq<char>, I>(content),
        paths::path_parent(path) is Some,
        utils::source_spans_of(content).len() == 0,
    ensures
        expanded(world, path, sourced_paths, depth) == Some(
            (Ok::<Seq<char>, ErrorView<I, P>>(content), sourced_paths),
        ),
{
    let base = paths::path_parent(path)->0;
    let file = FileView::opened(path, base, content, utils::source_spans_of(content));
    text::slice_of_everything(content);
    assert(file.completed() =~= content);
}

/// A file whose first `source` statement names a file in progress is refused, and the table stays
/// as it is.
pub proof fn circular_source_is_refused<I, P>(
    world: World<I, P>,
    path: Seq<char>,
    content: Seq<char>,
    base: Seq<char>,
    sourced_paths: Sourced,
    depth: nat,
)
    requires
        (world.read)(path) == Ok::<Seq<char>, I>(content),
        paths::path_parent(path) == Some(base),
        utils::source_spans_of(content).len() > 0,
        utils::in_progress(
            sourced_paths,
            FileView::opened(
                path,
                base,
                content,
                utils::source_spans_of(content),
            ).source_path(),
        ),
    ensures
        expanded(world, path, sourced_paths, depth) == Some(
            (
                Err::<Seq<char>, ErrorView<I, P>>(
                    ErrorView::CircularSourceError(
                        path,
                        FileView::opened(
                            path,
                            base,
                            content,
                            utils::source_spans_of(content),
                        ).source_path(),
                    ),
                ),
                sourced_paths,
            ),
        ),
{
    let source = FileView::opened(
        path,
        base,
        content,
        utils::source_spans_of(content),
    ).source_path();
    assert(sourced_paths.insert(paths::path_components(source), true) =~= sourced_paths);
}

/// Whether every file that the file at `path` sources has its components in `keys`.
pub open spec fn sources_within<I, P>(
    world: World<I, P>,
    path: Seq<char>,
    keys: Set<Seq<Seq<char>>>,
) -> bool {
    match ((world.read)(path), paths::path_parent(path)) {
        (Ok(content), Some(base)) => file_sources_within(
            base,
            content,
            utils::source_spans_of(content),
            keys,
        ),
        _ => true,
    }
}

/// Whether every name at `spans` leads to components in `keys`.
pub open spec fn file_sources_within(
    base: Seq<char>,
    content: Seq<char>,
    spans: Seq<utils::Span>,
    keys: Set<Seq<Seq<char>>>,
) -> bool {
    forall|i: int|
        #![trigger spans[i]]
        0 <= i < spans.len() ==> keys.contains(
            paths::path_components(
                paths::path_join(
                    base,
                    text::slice(content, spans[i].start as int, spans[i].end as int),
                ),
            ),
        )
}

/// The keys whose expansion is not in progress.
spec fn free(keys: Set<Seq<Seq<char>>>, sourced_paths: Sourced) -> Set<Seq<Seq<char>>> {
    keys.filter(|key: Seq<Seq<char>>| sourced_paths.get(key) != Some(true))
}

/// Expansion comes to an end: where the files that can be reached have finitely many paths, it is
/// never deeper than there are such paths, as no file can be sourced inside itself.
pub proof fn expansion_ends<I, P>(
    world: World<I, P>,
    path: Seq<char>,
    sourced_paths: Sourced,
    keys: Set<Seq<Seq<char>>>,
)
    requires
        keys.finite(),
        sources_within(world, path, keys),
        forall|p: Seq<char>|
            keys.contains(#[trigger] paths::path_components(p)) ==> sources_within(world, p, keys),
    ensures
        expanded(world, path, sourced_paths, keys.len()) is Some,
{
    vstd::set_lib::lemma_len_subset(free(keys, sourced_paths), keys);
    file_ends(world, path, sourced_paths, keys, keys.len());
}

proof fn file_ends<I, P>(
    world: World<I, P>,
    path: Seq<char>,
    sourced_paths: Sourced,
    keys: Set<Seq<Seq<char>>>,
    depth: nat,
)
    requires
        keys.finite(),
        sources_within(world, path, keys),
        forall|p: Seq<char>|
            keys.contains(#[trigger] paths::path_components(p)) ==> sources_within(world, p, keys),
        free(keys, sourced_paths).len() <= depth,
    ensures
        expanded(world, path, sourced_paths, depth) is Some,
    decreases depth, 1int, 0int,
{
    if let Ok(content) = (world.read)(path) {
        if let Some(base) = paths::path_parent(path) {
            let file = FileView::opened(path, base, content, utils::source_spans_of(content));
            rest_ends(world, file, sourced_paths, keys, depth);
        }
    }
}

proof fn rest_ends<I, P>(
    world: World<I, P>,
    file: FileView,
    sourced_paths: Sourced,
    keys: Set<Seq<Seq<char>>>,
    depth: nat,
)
    requires
        keys.finite(),
        0 <= file.next,
        file_sources_within(file.base, file.content, file.spans, keys),
        forall|p: Seq<char>|
            keys.contains(#[trigger] paths::path_components(p)) ==> sources_within(world, p, keys),
        free(keys, sourced_paths).len() <= depth,
    ensures
        expanded_from(world, file, sourced_paths, depth) is Some,
    decreases depth, 0int, file.spans.len() - file.next,
{
    let path = file.source_path();
    let key = paths::path_components(path);
    if file.next < file.spans.len() && !utils::in_progress(sourced_paths, path) {
        let span = file.spans[file.next];
        assert(keys.contains(key));
        let started = sourced_paths.insert(key, true);
        let before = free(keys, sourced_paths);
        assert(before.contains(key));
        assert(free(keys, started) =~= before.remove(key));
        file_ends(world, path, started, keys, (depth - 1) as nat);
        progress_is_restored(world, path, started, (depth - 1) as nat);
        if let Some((Ok(sourced_content), left)) = expanded(
            world,
            path,
            started,
            (depth - 1) as nat,
        ) {
            let done = left.insert(key, false);
            assert forall|k: Seq<Seq<char>>|
                (#[trigger] sourced_paths.get(k) == Some(true)) == (done.get(k) == Some(true)) by {
                assert((started.get(k) == Some(true)) == (left.get(k) == Some(true)));
            }
            assert(free(keys, done) =~= before);
            let resumed = file.up_to_source().past_source(sourced_content);
            rest_ends(world, resumed, done, keys, depth);
        }
    }
}

/// The paths, by their components, of all files that the file at `path` sources, and of those that
/// these source, down to `depth` levels.
pub open spec fn reached<I, P>(world: World<I, P>, path: Seq<char>, depth: nat) -> Set<
    Seq<Seq<char>>,
>
    decreases depth, 1int, 0int,
{
    match ((world.read)(path), paths::path_parent(path)) {
        (Ok(content), Some(base)) => reached_from(world, base, content, 0, depth),
        _ => Set::empty(),
    }
}

/// The paths that are reached from the statements of a text, from the one at `next` on.
pub open spec fn reached_from<I, P>(
    world: World<I, P>,
    base: Seq<char>,
    content: Seq<char>,
    next: nat,
    depth: nat,
) -> Set<Seq<Seq<char>>>
    decreases depth, 0int, utils::source_spans_of(content).len() - next,
{
    let spans = utils::source_spans_of(content);
    if next >= spans.len() || depth == 0 {
        Set::empty()
    } else {
        let span = spans[next as int];
        let path = paths::path_join(
            base,
            text::slice(content, span.start as int, span.end as int),
        );
        reached(world, path, (depth - 1) as nat).insert(paths::path_components(path)).union(
            reached_from(world, base, content, next + 1, depth),
        )
    }
}

/// A table in which some paths are recorded as not in progress, and all others as before.
pub open spec fn marked_done(sourced_paths: Sourced, keys: Set<Seq<Seq<char>>>) -> Sourced {
    Map::new(
        |key: Seq<Seq<char>>| sourced_paths.contains_key(key) || keys.contains(key),
        |key: Seq<Seq<char>>|
            if keys.contains(key) {
                false
            } else {
                sourced_paths[key]
            },
    )
}

/// An expansion that comes to a text leaves every path that it reaches recorded as not in
/// progress, and the entry of every other path as it was.
pub proof fn reached_paths_are_marked_done<I, P>(
    world: World<I, P>,
    path: Seq<char>,
    sourced_paths: Sourced,
    depth: nat,
)
    ensures
        expanded(world, path, sourced_paths, depth) matches Some((Ok(_), left)) ==> left
            == marked_done(sourced_paths, reached(world, path, depth)),
    decreases depth, 1int, 0int,
{
    if let Ok(content) = (world.read)(path) {
        if let Some(base) = paths::path_parent(path) {
            let file = FileView::opened(path, base, content, utils::source_spans_of(content));
            marked_done_from(world, file, sourced_paths, depth);
        }
    }
}

proof fn marked_done_from<I, P>(
    world: World<I, P>,
    file: FileView,
    sourced_paths: Sourced,
    depth: nat,
)
    requires
        file.spans == utils::source_spans_of(file.content),
        file.next >= 0,
    ensures
        expanded_from(world, file, sourced_paths, depth) matches Some((Ok(_), left)) ==> left
            == marked_done(
            sourced_paths,
            reached_from(world, file.base, file.content, file.next as nat, depth),
        ),
    decreases depth, 0int, file.spans.len() - file.next,
{
    let path = file.source_path();
    let key = paths::path_components(path);
    let here = reached_from(world, file.base, file.content, file.next as nat, depth);
    if file.next >= file.spans.len() {
        assert(marked_done(sourced_paths, here) =~= sourced_paths);
    } else if !utils::in_progress(sourced_paths, path) && depth > 0 {
        let started = sourced_paths.insert(key, true);
        let inner = reached(world, path, (depth - 1) as nat);
        reached_paths_are_marked_done(world, path, started, (depth - 1) as nat);
        if let Some((Ok(sourced_content), left)) = expanded(
            world,
            path,
            started,
            (depth - 1) as nat,
        ) {
            let done = left.insert(key, false);
            let resumed = file.up_to_source().past_source(sourced_content);
            marked_done_from(world, resumed, done, depth);
            let rest = reached_from(world, file.base, file.content, resumed.next as nat, depth);
            assert(here == inner.insert(key).union(rest));
            assert(marked_done(done, rest) =~= marked_done(sourced_paths, here));
        }
    }
}

/// What an expansion comes to depends on the table only by the paths that are in progress.
pub proof fn only_progress_matters<I, P>(
    world: World<I, P>,
    path: Seq<char>,
    a: Sourced,
    b: Sourced,
    depth: nat,
)
    requires
        same_in_progress(a, b),
    ensures
        match (expanded(world, path, a, depth), expanded(world, path, b, depth)) {
            (Some(one), Some(other)) => one.0 == other.0,
            (None, None) => true,
            _ => false,
        },
    decreases depth, 1int, 0int,
{
    if let Ok(content) = (world.read)(path) {
        if let Some(base) = paths::path_parent(path) {
            let file = FileView::opened(path, base, content, utils::source_spans_of(content));
            only_progress_matters_from(world, file, a, b, depth);
        }
    }
}

proof fn only_progress_matters_from<I, P>(
    world: World<I, P>,
    file: FileView,
    a: Sourced,
    b: Sourced,
    depth: nat,
)
    requires
        same_in_progress(a, b),
    ensures
        match (expanded_from(world, file, a, depth), expanded_from(world, file, b, depth)) {
            (Some(one), Some(other)) => one.0 == other.0,
            (None, None) => true,
            _ => false,
        },
    decreases depth, 0int, file.spans.len() - file.next,
{
    let path = file.source_path();
    let key = paths::path_components(path);
    assert((a.get(key) == Some(true)) == (b.get(key) == Some(true)));
    if file.next < file.spans.len() && !utils::in_progress(a, path) && depth > 0 {
        let started_a = a.insert(key, true);
        let started_b = b.insert(key, true);
        assert forall|k: Seq<Seq<char>>|
            (#[trigger] started_a.get(k) == Some(true)) == (started_b.get(k) == Some(true)) by {
            assert((a.get(k) == Some(true)) == (b.get(k) == Some(true)));
        }
        assert(same_in_progress(started_a, started_b));
        only_progress_matters(world, path, started_a, started_b, (depth - 1) as nat);
        progress_is_restored(world, path, started_a, (depth - 1) as nat);
        progress_is_restored(world, path, started_b, (depth - 1) as nat);
        if let Some((Ok(sourced_content), left_a)) = expanded(
            world,
            path,
            started_a,
            (depth - 1) as nat,
        ) {
            let left_b = (expanded(world, path, started_b, (depth - 1) as nat)->0).1;
            let done_a = left_a.insert(key, false);
            let done_b = left_b.insert(key, false);
            assert forall|k: Seq<Seq<char>>|
                (#[trigger] done_a.get(k) == Some(true)) == (done_b.get(k) == Some(true)) by {
                assert((started_a.get(k) == Some(true)) == (left_a.get(k) == Some(true)));
                assert((started_b.get(k) == Some(true)) == (left_b.get(k) == Some(true)));
                assert((started_a.get(k) == Some(true)) == (started_b.get(k) == Some(true)));
            }
            assert(same_in_progress(done_a, done_b));
            let resumed = file.up_to_source().past_source(sourced_content);
            only_progress_matters_from(world, resumed, done_a, done_b, depth);
        }
    }
}

/// Expanding a file again, with the table that its expansion to a text has left, comes to the same
/// text and leaves the same table.
pub proof fn expanded_again<I, P>(
    world: World<I, P>,
    path: Seq<char>,
    sourced_paths: Sourced,
    depth: nat,
)
    ensures
        expanded(world, path, sourced_paths, depth) matches Some((Ok(text), left)) ==> expanded(
            world,
            path,
            left,
            depth,
        ) == Some((Ok::<Seq<char>, ErrorView<I, P>>(text), left)),
{
    if let Some((Ok(_), left)) = expanded(world, path, sourced_paths, depth) {
        let keys = reached(world, path, depth);
        progress_is_restored(world, path, sourced_paths, depth);
        only_progress_matters(world, path, sourced_paths, left, depth);
        reached_paths_are_marked_done(world, path, sourced_paths, depth);
        reached_paths_are_marked_done(world, path, left, depth);
        assert(marked_done(marked_done(sourced_paths, keys), keys) =~= marked_done(
            sourced_paths,
            keys,
        ));
    }
}

/// The characters between two byte offsets of a text.
pub open spec fn between(content: Seq<char>, start: int, end: int) -> Seq<char> {
    decode_utf8(encode_utf8(content).subrange(start, end))
}

/// Where the names of the sourced files stand in a text: at the group `source_file` of each match
/// of the pattern, which is matched line by line and without regard to case.
pub proof fn names_stand_where_the_pattern_finds_them(text: Seq<char>)
    ensures
        ({
            let pattern = "^\\s*source\\s+\"(?<source_file>.+\\.kdl)\"\\s*?$"@;
            let found = utils::regex_group_spans(
                utils::regex_built(pattern, true, true).unwrap(),
                text,
                "source_file"@,
            );
            &&& utils::source_spans_of(text).len() == found.len()
            &&& forall|i: int|
                0 <= i < found.len() ==> #[trigger] utils::source_spans_of(text)[i]
                    == found[i].unwrap()
        }),
{
}

/// The path that the statement at `i` names, for a file in the directory `base`.
pub open spec fn named_path(base: Seq<char>, content: Seq<char>, i: int) -> Seq<char> {
    let span = utils::source_spans_of(content)[i];
    paths::path_join(base, between(content, span.start as int, span.end as int))
}

/// The text from the name before the statement at `i` to its own name; behind the last name, the
/// text to the end.
pub open spec fn kept_piece(content: Seq<char>, i: int) -> Seq<char> {
    let spans = utils::source_spans_of(content);
    between(
        content,
        if i == 0 {
            0
        } else {
            spans[i - 1].end as int
        },
        if i == spans.len() {
            encode_utf8(content).len() as int
        } else {
            spans[i].start as int
        },
    )
}

/// Pieces of a text by turns with the texts of the files that it sources.
pub open spec fn by_turns(content: Seq<char>, texts: Seq<Seq<char>>, len: nat) -> Seq<Seq<char>> {
    Seq::new(
        len,
        |j: int|
            if j % 2 == 0 {
                kept_piece(content, j / 2)
            } else {
                texts[j / 2]
            },
    )
}

/// Whether the file that the statement at `i` names is not in progress, comes to `text`, which can
/// be parsed, and turns the table `before` into `after`: while it is expanded it is recorded as in
/// progress, and then as not in progress.
pub open spec fn source_done<I, P>(
    world: World<I, P>,
    path: Seq<char>,
    base: Seq<char>,
    content: Seq<char>,
    depth: nat,
    i: int,
    text: Seq<char>,
    before: Sourced,
    after: Sourced,
) -> bool {
    let source = named_path(base, content, i);
    let key = paths::path_components(source);
    &&& depth > 0
    &&& before.get(key) != Some(true)
    &&& (world.parse)(path, text) is Ok
    &&& match expanded(world, source, before.insert(key, true), (depth - 1) as nat) {
        Some((Ok(sourced_content), left)) => sourced_content == text && after == left.insert(
            key,
            false,
        ),
        _ => false,
    }
}

/// Whether the first files that a file sources have come to `texts`, one after the other, each
/// with the table that the one before it has left.
pub open spec fn sources_done<I, P>(
    world: World<I, P>,
    path: Seq<char>,
    base: Seq<char>,
    content: Seq<char>,
    depth: nat,
    texts: Seq<Seq<char>>,
    tables: Seq<Sourced>,
) -> bool {
    &&& (world.read)(path) == Ok::<Seq<char>, I>(content)
    &&& paths::path_parent(path) == Some(base)
    &&& texts.len() <= utils::source_spans_of(content).len()
    &&& tables.len() == texts.len() + 1
    &&& forall|i: int|
        #![trigger texts[i]]
        0 <= i < texts.len() ==> source_done(
            world,
            path,
            base,
            content,
            depth,
            i,
            texts[i],
            tables[i],
            tables[i + 1],
        )
}

proof fn pieces_come_by_turns(content: Seq<char>, texts: Seq<Seq<char>>, k: nat)
    requires
        k < texts.len(),
    ensures
        by_turns(content, texts, 2 * k + 2) == by_turns(content, texts.take(k as int), 2 * k).push(
            kept_piece(content, k as int),
        ).push(texts[k as int]),
        by_turns(content, texts, 2 * k + 2).flatten() == by_turns(
            content,
            texts.take(k as int),
            2 * k,
        ).flatten() + kept_piece(content, k as int) + texts[k as int],
{
    let before = by_turns(content, texts.take(k as int), 2 * k);
    let piece = kept_piece(content, k as int);
    assert(by_turns(content, texts, 2 * k + 2) =~= before.push(piece).push(texts[k as int]));
    before.lemma_flatten_push(piece);
    before.push(piece).lemma_flatten_push(texts[k as int]);
}

/// After some of its sources, a file has its pieces and their texts by turns.
proof fn file_after_sources<I, P>(
    world: World<I, P>,
    path: Seq<char>,
    base: Seq<char>,
    content: Seq<char>,
    depth: nat,
    texts: Seq<Seq<char>>,
    tables: Seq<Sourced>,
) -> (file: FileView)
    requires
        sources_done(world, path, base, content, depth, texts, tables),
    ensures
        file.path == path,
        file.base == base,
        file.content == content,
        file.spans == utils::source_spans_of(content),
        file.next == texts.len(),
        file.last_match_pos == if texts.len() == 0 {
            0
        } else {
            file.spans[texts.len() - 1].end as int
        },
        file.expanded == by_turns(content, texts, 2 * texts.len()).flatten(),
        expanded(world, path, tables[0], depth) == expanded_from(
            world,
            file,
            tables.last(),
            depth,
        ),
    decreases texts.len(),
{
    let spans = utils::source_spans_of(content);
    if texts.len() == 0 {
        assert(by_turns(content, texts, 0) =~= Seq::empty());
        FileView::opened(path, base, content, spans)
    } else {
        let k = (texts.len() - 1) as nat;
        let some = texts.take(k as int);
        let some_tables = tables.take(k as int + 1);
        assert forall|i: int|
            #![trigger some[i]]
            0 <= i < some.len() implies source_done(
            world,
            path,
            base,
            content,
            depth,
            i,
            some[i],
            some_tables[i],
            some_tables[i + 1],
        ) by {
            assert(texts[i] == some[i]);
        }
        let file = file_after_sources(world, path, base, content, depth, some, some_tables);
        assert(some_tables.last() == tables[k as int]);
        assert(texts[k as int] == texts.last());
        assert(source_done(
            world,
            path,
            base,
            content,
            depth,
            k as int,
            texts[k as int],
            tables[k as int],
            tables[k as int + 1],
        ));
        assert(file.source_path() == named_path(base, content, k as int));
        pieces_come_by_turns(content, texts, k);
        file.up_to_source().past_source(texts.last())
    }
}

/// A file whose sourced files have all come to texts expands to its own text with these texts in
/// the place of the files' names: the piece before the first name, the first text, the piece up to
/// the next name, and so on to the piece behind the last name. It leaves the table that the last
/// of them has left.
pub proof fn sourced_texts_take_the_place_of_names<I, P>(
    world: World<I, P>,
    path: Seq<char>,
    base: Seq<char>,
    content: Seq<char>,
    depth: nat,
    texts: Seq<Seq<char>>,
    tables: Seq<Sourced>,
)
    requires
        sources_done(world, path, base, content, depth, texts, tables),
        texts.len() == utils::source_spans_of(content).len(),
    ensures
        expanded(world, path, tables[0], depth) == Some(
            (
                Ok::<Seq<char>, ErrorView<I, P>>(
                    by_turns(content, texts, 2 * texts.len() + 1).flatten(),
                ),
                tables.last(),
            ),
        ),
{
    let file = file_after_sources(world, path, base, content, depth, texts, tables);
    let n = texts.len();
    let before = by_turns(content, texts, 2 * n);
    let piece = kept_piece(content, n as int);
    assert(by_turns(content, texts, 2 * n + 1) =~= before.push(piece));
    before.lemma_flatten_push(piece);
}

/// A file stops at the first source that fails: at one that is recorded as in progress, with a
/// circle; at one whose own expansion fails, with its error; at one whose text cannot be parsed
/// under the file's name, with the parser's error.
pub proof fn expansion_stops_at_the_first_failure<I, P>(
    world: World<I, P>,
    path: Seq<char>,
    base: Seq<char>,
    content: Seq<char>,
    depth: nat,
    texts: Seq<Seq<char>>,
    tables: Seq<Sourced>,
)
    requires
        sources_done(world, path, base, content, depth, texts, tables),
        texts.len() < utils::source_spans_of(content).len(),
    ensures
        ({
            let source = named_path(base, content, texts.len() as int);
            let key = paths::path_components(source);
            let table = tables.last();
            let outcome = expanded(world, path, tables[0], depth);
            if table.get(key) == Some(true) {
                outcome == Some(
                    (
                        Err::<Seq<char>, ErrorView<I, P>>(
                            ErrorView::CircularSourceError(path, source),
                        ),
                        table,
                    ),
                )
            } else if depth == 0 {
                outcome is None
            } else {
                match expanded(world, source, table.insert(key, true), (depth - 1) as nat) {
                    None => outcome is None,
                    Some((Err(e), left)) => outcome == Some(
                        (Err::<Seq<char>, ErrorView<I, P>>(e), left),
                    ),
                    Some((Ok(text), left)) => (world.parse)(path, text) matches Err(e)
                        ==> outcome == Some(
                        (
                            Err::<Seq<char>, ErrorView<I, P>>(ErrorView::ParseError(e)),
                            left.insert(key, false),
                        ),
                    ),
                }
            }
        }),
{
    let file = file_after_sources(world, path, base, content, depth, texts, tables);
    let source = named_path(base, content, texts.len() as int);
    let key = paths::path_components(source);
    assert(file.source_path() == source);
    if tables.last().get(key) == Some(true) {
        assert(tables.last().insert(key, true) =~= tables.last());
    }
}

/// A file that cannot be read fails with the reader's error, and one without a parent as such;
/// either way the table stays as it is.
pub proof fn file_has_to_be_read<I, P>(
    world: World<I, P>,
    path: Seq<char>,
    sourced_paths: Sourced,
    depth: nat,
)
    ensures
        (world.read)(path) matches Err(e) ==> expanded(world, path, sourced_paths, depth) == Some(
            (Err::<Seq<char>, ErrorView<I, P>>(ErrorView::IoError(e)), sourced_paths),
        ),
        (world.read)(path) is Ok && paths::path_parent(path) is None ==> expanded(
            world,
            path,
            sourced_paths,
            depth,
        ) == Some((Err::<Seq<char>, ErrorView<I, P>>(ErrorView::NoParent(path)), sourced_paths)),
{
}

/// Run to its end, the expansion of a file with one `source` statement, whose file expands to a
/// text that can be parsed, comes to the file's text with that text in the place of the name.
pub proof fn one_source_is_put_in_place<I, P>(
    world: World<I, P>,
    path: Seq<char>,
    base: Seq<char>,
    content: Seq<char>,
    sourced_paths: Sourced,
    span: Span,
    text: Seq<char>,
    left: Sourced,
    depth: nat,
)
    requires
        (world.read)(path) == Ok::<Seq<char>, I>(content),
        paths::path_parent(path) == Some(base),
        utils::source_spans_of(content) == seq![span],
        ({
            let source = paths::path_join(
                base,
                between(content, span.start as int, span.end as int),
            );
            let key = paths::path_components(source);
            &&& sourced_paths.get(key) != Some(true)
            &&& expanded(world, source, sourced_paths.insert(key, true), depth) == Some(
                (Ok::<Seq<char>, ErrorView<I, P>>(text), left),
            )
        }),
        (world.parse)(path, text) is Ok,
    ensures
        exists|turns: nat|
            (#[trigger] run(
                world,
                ExpansionView::<I, P>::started(path, sourced_paths),
                turns,
            )).step == StepView::<I, P>::Finished(
                Ok(
                    between(content, 0, span.start as int) + text + between(
                        content,
                        span.end as int,
                        encode_utf8(content).len() as int,
                    ),
                ),
            ),
{
    let source = paths::path_join(base, between(content, span.start as int, span.end as int));
    let key = paths::path_components(source);
    let texts = seq![text];
    let tables = seq![sourced_paths, left.insert(key, false)];
    assert(named_path(base, content, 0) == source);
    assert(source_done(
        world,
        path,
        base,
        content,
        depth + 1,
        0,
        texts[0],
        tables[0],
        tables[1],
    ));
    sourced_texts_take_the_place_of_names(world, path, base, content, depth + 1, texts, tables);
    pieces_come_by_turns(content, texts, 0);
    let two = by_turns(content, texts, 2);
    let end = kept_piece(content, 1);
    assert(by_turns(content, texts.take(0), 0) =~= Seq::empty());
    assert(by_turns(content, texts, 3) =~= two.push(end));
    two.lemma_flatten_push(end);
    assert(two.flatten() =~= kept_piece(content, 0) + text);
    expansion_finishes(world, path, sourced_paths, depth + 1);
}

/// Run to its end, the expansion of a file with one `source` statement of a file that sources
/// nothing comes to the one's text with the other's in the place of the name, whatever they hold.
pub proof fn one_plain_source_is_put_in_place<I, P>(
    world: World<I, P>,
    path: Seq<char>,
    base: Seq<char>,
    content: Seq<char>,
    sourced_paths: Sourced,
    span: Span,
    text: Seq<char>,
)
    requires
        (world.read)(path) == Ok::<Seq<char>, I>(content),
        paths::path_parent(path) == Some(base),
        utils::source_spans_of(content) == seq![span],
        ({
            let source = paths::path_join(
                base,
                between(content, span.start as int, span.end as int),
            );
            &&& sourced_paths.get(paths::path_components(source)) != Some(true)
            &&& (world.read)(source) == Ok::<Seq<char>, I>(text)
            &&& paths::path_parent(source) is Some
        }),
        utils::source_spans_of(text).len() == 0,
        (world.parse)(path, text) is Ok,
    ensures
        exists|turns: nat|
            (#[trigger] run(
                world,
                ExpansionView::<I, P>::started(path, sourced_paths),
                turns,
            )).step == StepView::<I, P>::Finished(
                Ok(
                    between(content, 0, span.start as int) + text + between(
                        content,
                        span.end as int,
                        encode_utf8(content).len() as int,
                    ),
                ),
            ),
{
    let source = paths::path_join(base, between(content, span.start as int, span.end as int));
    let started = sourced_paths.insert(paths::path_components(source), true);
    plain_file_is_kept(world, source, text, started, 0);
    one_source_is_put_in_place(world, path, base, content, sourced_paths, span, text, started, 0);
}

/// Told what an awaited file holds, an expansion awaits the first file that this one sources,
/// unless that is in progress, which ends it. A file that sources nothing ends it with the file's
/// text, or, where another file sources it, has that text parsed under the other's name.
pub proof fn file_read_awaits_its_first_source<I, P>(
    state: ExpansionView<I, P>,
    path: Seq<char>,
    base: Seq<char>,
    content: Seq<char>,
)
    requires
        state.step == StepView::<I, P>::Read(path),
        paths::path_parent(path) == Some(base),
    ensures
        ({
            let after = state.after_read(Ok(content));
            let source = named_path(base, content, 0);
            let key = paths::path_components(source);
            if utils::source_spans_of(content).len() > 0 {
                &&& after.sourced_paths == state.sourced_paths.insert(key, true)
                &&& after.step == if state.sourced_paths.get(key) == Some(true) {
                    StepView::<I, P>::Finished(
                        Err(ErrorView::CircularSourceError(path, source)),
                    )
                } else {
                    StepView::Read(source)
                }
            } else if state.files.len() == 0 {
                &&& after.sourced_paths == state.sourced_paths
                &&& after.step == StepView::<I, P>::Finished(Ok(content))
            } else {
                &&& after.sourced_paths == state.sourced_paths.insert(
                    paths::path_components(state.files.last().pending),
                    false,
                )
                &&& after.step == (StepView::<I, P>::Parse {
                    name: state.files.last().path,
                    text: content,
                })
            }
        }),
{
    let file = FileView::opened(path, base, content, utils::source_spans_of(content));
    let opened = state.files.push(file);
    assert(opened.last() == file);
    assert(opened.drop_last() =~= state.files);
    text::slice_of_everything(content);
    assert(file.completed() =~= content);
}

/// Told that a file cannot be read or a text cannot be parsed, an expansion ends with that error
/// and leaves its table as it is.
pub proof fn refusal_ends_the_expansion<I, P>(
    state: ExpansionView<I, P>,
    unread: I,
    unparsed: P,
)
    ensures
        state.after_read(Err(unread)).step == StepView::<I, P>::Finished(
            Err(ErrorView::IoError(unread)),
        ),
        state.after_read(Err(unread)).sourced_paths == state.sourced_paths,
        state.after_parse(Err(unparsed)).step == StepView::<I, P>::Finished(
            Err(ErrorView::ParseError(unparsed)),
        ),
        state.after_parse(Err(unparsed)).sourced_paths == state.sourced_paths,
{
}

/// A step is seen as what it is, with the very texts, paths and errors that it holds, and so is
/// what reading a file came to.
pub proof fn steps_are_seen_as_they_are<I, P>(step: Step<I, P>, reply: Result<String, I>)
    ensures
        step matches Step::Read(path) ==> step@ == StepView::<I, P>::Read(path@),
        step matches Step::Parse { name, text } ==> step@ == (StepView::<I, P>::Parse {
            name: name@,
            text: text@,
        }),
        step matches Step::Finished(Ok(text)) ==> step@ == StepView::<I, P>::Finished(Ok(text@)),
        step matches Step::Finished(Err(ConfigParseError::IoError(e))) ==> step@ == StepView::<
            I,
            P,
        >::Finished(Err(ErrorView::IoError(e))),
        step matches Step::Finished(Err(ConfigParseError::ParseError(e))) ==> step@ == StepView::<
            I,
            P,
        >::Finished(Err(ErrorView::ParseError(e))),
        step matches Step::Finished(Err(ConfigParseError::NoParent(path))) ==> step@ == StepView::<
            I,
            P,
        >::Finished(Err(ErrorView::NoParent(path@))),
        step matches Step::Finished(Err(ConfigParseError::CircularSourceError(file, source)))
            ==> step@ == StepView::<I, P>::Finished(
            Err(ErrorView::CircularSourceError(file@, source@)),
        ),
        reply matches Ok(text) ==> utils::reply_view(reply) == Ok::<Seq<char>, I>(text@),
        reply matches Err(e) ==> utils::reply_view(reply) == Err::<Seq<char>, I>(e),
{
}

} // verus!
