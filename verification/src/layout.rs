//! Where the pipeline keeps its files: one directory per video under a
//! common root, with the stream manifest and the archive of the raw upload
//! inside it. Paths are texts with `/` between their segments.

use vstd::prelude::*;
use vstd::string::*;

use crate::job::VideoId;
use crate::text::chars_of;

verus! {

/// `part` placed under `base`. A separator is put between the two unless
/// `base` is empty or already ends in one.
pub open spec fn joined(base: Seq<char>, part: Seq<char>) -> Seq<char> {
    if base.len() == 0 || base.last() == '/' {
        base + part
    } else {
        base + seq!['/'] + part
    }
}

/// The directory that holds everything produced for one video.
pub open spec fn video_dir_of(videos_dir: Seq<char>, video_id: VideoId) -> Seq<char> {
    joined(videos_dir, video_id.text())
}

/// The manifest of the adaptive-bitrate stream of a video.
pub open spec fn manifest_path_of(videos_dir: Seq<char>, video_id: VideoId) -> Seq<char> {
    joined(video_dir_of(videos_dir, video_id), "master.m3u8"@)
}

/// The archive that takes the place of the raw upload of a video.
pub open spec fn archive_path_of(videos_dir: Seq<char>, video_id: VideoId) -> Seq<char> {
    joined(video_dir_of(videos_dir, video_id), "raw.zip"@)
}

/// Where the last segment of `path` begins: just behind its last separator,
/// or at the start where it has none.
pub open spec fn segment_start(path: Seq<char>) -> int
    decreases path.len(),
{
    if path.len() == 0 || path.last() == '/' {
        path.len() as int
    } else {
        segment_start(path.drop_last())
    }
}

/// The name a path ends in: its last segment that is neither empty nor `.`.
/// A path without such a segment has no name, and neither has one whose last
/// such segment is `..`.
pub open spec fn base_name_of(path: Seq<char>) -> Option<Seq<char>>
    decreases path.len(),
{
    if path.len() == 0 {
        None
    } else if path.last() == '/' {
        base_name_of(path.drop_last())
    } else {
        let start = segment_start(path);
        let name = path.subrange(start, path.len() as int);
        if 0 <= start < path.len() && name == seq!['.'] {
            base_name_of(path.subrange(0, start))
        } else if name == seq!['.', '.'] {
            None
        } else {
            Some(name)
        }
    }
}

/// The last segment starts inside the path and holds no separator.
pub proof fn lemma_segment_start(path: Seq<char>)
    ensures
        0 <= segment_start(path) <= path.len(),
        forall|i: int| segment_start(path) <= i < path.len() ==> path[i] != '/',
        segment_start(path) > 0 ==> path[segment_start(path) - 1] == '/',
    decreases path.len(),
{
    if path.len() == 0 || path.last() == '/' {
    } else {
        let shorter = path.drop_last();
        lemma_segment_start(shorter);
        assert forall|i: int| segment_start(path) <= i < path.len() implies path[i] != '/' by {
            if i < shorter.len() {
                assert(shorter[i] == path[i]);
            }
        }
        if segment_start(path) > 0 {
            assert(shorter[segment_start(path) - 1] == path[segment_start(path) - 1]);
        }
    }
}

/// Puts `part` under `base`.
pub fn join(base: &str, part: &str) -> (path: String)
    ensures
        path@ == joined(base@, part@),
{
    let chars = chars_of(base);
    let mut path = String::from_str(base);
    if chars.len() > 0 && chars[chars.len() - 1] != '/' {
        proof {
            reveal_strlit("/");
            assert("/"@ =~= seq!['/']);
        }
        path.append("/");
    }
    path.append(part);
    path
}

/// The directory that holds everything produced for one video.
pub fn video_dir(videos_dir: &str, video_id: VideoId) -> (path: String)
    ensures
        path@ == video_dir_of(videos_dir@, video_id),
{
    let id = video_id.to_text();
    join(videos_dir, id.as_str())
}

/// The manifest of the adaptive-bitrate stream of a video.
pub fn manifest_path(videos_dir: &str, video_id: VideoId) -> (path: String)
    ensures
        path@ == manifest_path_of(videos_dir@, video_id),
{
    let dir = video_dir(videos_dir, video_id);
    join(dir.as_str(), "master.m3u8")
}

/// The archive that takes the place of the raw upload of a video.
pub fn archive_path(videos_dir: &str, video_id: VideoId) -> (path: String)
    ensures
        path@ == archive_path_of(videos_dir@, video_id),
{
    let dir = video_dir(videos_dir, video_id);
    join(dir.as_str(), "raw.zip")
}

/// The name a path ends in, if it has one.
pub fn base_name(path: &str) -> (name: Option<String>)
    ensures
        match name {
            Some(text) => base_name_of(path@) == Some(text@),
            None => base_name_of(path@) is None,
        },
{
    let chars = chars_of(path);
    let mut end: usize = chars.len();
    assert(path@.subrange(0, end as int) =~= path@);
    while end > 0
        invariant
            chars@ == path@,
            end <= chars.len(),
            base_name_of(path@) == base_name_of(path@.subrange(0, end as int)),
        decreases end,
    {
        let ghost prefix = path@.subrange(0, end as int);
        if chars[end - 1] == '/' {
            assert(prefix.drop_last() =~= path@.subrange(0, end as int - 1));
            end = end - 1;
        } else {
            let mut start: usize = end;
            assert(prefix.subrange(0, start as int) =~= prefix);
            while start > 0 && chars[start - 1] != '/'
                invariant
                    chars@ == path@,
                    start <= end <= chars.len(),
                    prefix == path@.subrange(0, end as int),
                    segment_start(prefix) == segment_start(prefix.subrange(0, start as int)),
                decreases start,
            {
                assert(prefix.subrange(0, start as int).drop_last() =~= prefix.subrange(
                    0,
                    start as int - 1,
                ));
                start = start - 1;
            }
            assert(segment_start(prefix) == start) by {
                let head = prefix.subrange(0, start as int);
                assert(head.len() == 0 || head.last() == '/');
            }
            let ghost name = prefix.subrange(start as int, end as int);
            assert(name =~= path@.subrange(start as int, end as int));
            assert(name.len() == end - start);
            assert(name[0] == chars@[start as int]);
            assert(name.len() >= 2 ==> name[1] == chars@[start as int + 1]);
            let dot: bool = end - start == 1 && chars[start] == '.';
            let dots: bool = end - start == 2 && chars[start] == '.' && chars[start + 1] == '.';
            assert(dot <==> name =~= seq!['.']);
            assert(dots <==> name =~= seq!['.', '.']);
            if dot {
                assert(prefix.subrange(0, start as int) =~= path@.subrange(0, start as int));
                end = start;
            } else if dots {
                return None;
            } else {
                let slice = path.substring_char(start, end);
                return Some(String::from_str(slice));
            }
        }
    }
    assert(path@.subrange(0, 0).len() == 0);
    None
}

} // verus!
