//! The picker's application state: the wallpaper folder, the engine, and
//! the selection of image files out of a directory listing.
//!
//! The library never reads the directory itself: the surrounding program
//! lists the folder fresh for every render pass — deliberately uncached —
//! and hands the entry paths to [`WalpselApp::filter_images`].

use vstd::prelude::*;

use crate::wallpaper_engine::WallpaperEngine;

verus! {

/// The position of the last occurrence of `c` in `p` at or before `i`.
pub open spec fn last_pos(p: Seq<char>, c: char, i: int) -> Option<int>
    decreases i + 1,
{
    if i < 0 || i >= p.len() {
        None
    } else if p[i] == c {
        Some(i)
    } else {
        last_pos(p, c, i - 1)
    }
}

/// The path with its trailing separators removed: `x.png/` names the same
/// file-system entry as `x.png`.
pub open spec fn strip_trailing_slashes(p: Seq<char>) -> Seq<char>
    decreases p.len(),
{
    if p.len() > 0 && p.last() == '/' {
        strip_trailing_slashes(p.drop_last())
    } else {
        p
    }
}

/// The start of the file name in path `p`: one past the last `/`, or the
/// start of the path.
pub open spec fn file_name_start(p: Seq<char>) -> int {
    match last_pos(p, '/', p.len() - 1) {
        Some(j) => j + 1,
        None => 0,
    }
}

/// The extension of path `p`: the text after the last `.` of its file
/// name, provided part of the name comes before that dot. Trailing path
/// separators are ignored, as the file system reads them.
pub open spec fn extension_of(p: Seq<char>) -> Option<Seq<char>> {
    let q = strip_trailing_slashes(p);
    match last_pos(q, '.', q.len() - 1) {
        Some(d) => if d > file_name_start(q) {
            Some(q.subrange(d + 1, q.len() as int))
        } else {
            None
        },
        None => None,
    }
}

/// Character `a` is `b` regardless of ASCII case, `b` a lowercase letter.
pub open spec fn ci_char(a: char, b: char) -> bool {
    a == b || ('a' as u32 <= b as u32 && b as u32 <= 'z' as u32 && a as u32 + 32 == b as u32)
}

/// `e` equals `pat` up to ASCII case, `pat` given in lowercase.
pub open spec fn ci_eq(e: Seq<char>, pat: Seq<char>) -> bool {
    e.len() == pat.len() && (forall|i: int| 0 <= i < e.len() ==> ci_char(e[i], pat[i]))
}

/// An extension of a supported image type, compared without regard to
/// ASCII case: jpg, jpeg, png, bmp or gif.
pub open spec fn is_image_ext(e: Seq<char>) -> bool {
    ||| ci_eq(e, "jpg"@)
    ||| ci_eq(e, "jpeg"@)
    ||| ci_eq(e, "png"@)
    ||| ci_eq(e, "bmp"@)
    ||| ci_eq(e, "gif"@)
}

/// The path of an image file: its extension is one of the supported image
/// types.
pub open spec fn is_image_path(p: Seq<char>) -> bool {
    match extension_of(p) {
        Some(e) => is_image_ext(e),
        None => false,
    }
}

/// The position of the last occurrence of `c` among the first `m`
/// characters of `s`.
fn last_index_of(s: &str, m: usize, c: char) -> (r: Option<usize>)
    requires
        m <= s@.len(),
    ensures
        match r {
            Some(k) => last_pos(s@.take(m as int), c, m - 1) == Some(k as int) && k < m,
            None => last_pos(s@.take(m as int), c, m - 1) is None,
        },
{
    let ghost q = s@.take(m as int);
    let mut k: usize = m;
    while k > 0
        invariant
            m <= s@.len(),
            q == s@.take(m as int),
            k <= m,
            last_pos(q, c, m - 1) == last_pos(q, c, k - 1),
        decreases k,
    {
        k = k - 1;
        proof {
            assert(q[k as int] == s@[k as int]);
        }
        if s.get_char(k) == c {
            return Some(k);
        }
    }
    None
}

/// Whether the characters of `s` from `from` to `to` equal `pat` up to
/// ASCII case.
fn ext_eq_ci(s: &str, from: usize, to: usize, pat: &str) -> (r: bool)
    requires
        from <= to <= s@.len(),
    ensures
        r == ci_eq(s@.subrange(from as int, to as int), pat@),
{
    let m: usize = pat.unicode_len();
    if to - from != m {
        return false;
    }
    let mut j: usize = 0;
    while j < m
        invariant
            to <= s@.len(),
            m == pat@.len(),
            from + m == to,
            j <= m,
            forall|i: int| 0 <= i < j ==> ci_char(s@[from + i], pat@[i]),
        decreases m - j,
    {
        let a = s.get_char(from + j);
        let b = pat.get_char(j);
        let ok = a == b || ((b as u32) >= 'a' as u32 && (b as u32) <= 'z' as u32 && (a as u32)
            + 32 == (b as u32));
        if !ok {
            proof {
                assert(s@.subrange(from as int, to as int)[j as int] == s@[from + j]);
            }
            return false;
        }
        j = j + 1;
    }
    proof {
        assert forall|i: int| 0 <= i < m implies ci_char(
            s@.subrange(from as int, to as int)[i],
            pat@[i],
        ) by {
            assert(s@.subrange(from as int, to as int)[i] == s@[from + i]);
        }
    }
    true
}

/// The picker's state: the folder whose images are offered, and the engine
/// that changes the wallpaper. The folder path is fixed at construction;
/// the image list is not cached here but recomputed from a fresh directory
/// listing each time.
pub struct WalpselApp {
    /// Path of the folder scanned for wallpaper images.
    pub path: String,
    /// Engine used to change the wallpaper.
    pub engine: WallpaperEngine,
}

impl WalpselApp {
    /// A picker over the folder at `path_`, changing wallpapers through
    /// `wallpaper_eng`.
    pub fn new(path_: &str, wallpaper_eng: WallpaperEngine) -> (app: Self)
        ensures
            app.path@ == path_@,
            app.engine == wallpaper_eng,
    {
        WalpselApp { path: String::from_str(path_), engine: wallpaper_eng }
    }

    /// Whether the file at `file_path` is of a supported image type:
    /// its extension, compared without regard to ASCII case, is one of
    /// jpg, jpeg, png, bmp, gif. Trailing path separators are ignored.
    pub fn is_image_type(file_path: &str) -> (r: bool)
        ensures
            r == is_image_path(file_path@),
    {
        let n: usize = file_path.unicode_len();
        let mut m: usize = n;
        proof {
            assert(file_path@.take(n as int) =~= file_path@);
        }
        while m > 0 && file_path.get_char(m - 1) == '/'
            invariant
                n == file_path@.len(),
                m <= n,
                strip_trailing_slashes(file_path@) == strip_trailing_slashes(
                    file_path@.take(m as int),
                ),
            decreases m,
        {
            proof {
                let p = file_path@;
                assert(p.take(m as int).last() == p[m - 1]);
                assert(p.take(m as int).drop_last() =~= p.take(m - 1));
            }
            m = m - 1;
        }
        proof {
            let p = file_path@;
            if m > 0 {
                assert(p.take(m as int).last() == p[m - 1]);
            }
            assert(strip_trailing_slashes(p.take(m as int)) == p.take(m as int));
            assert(strip_trailing_slashes(p) == p.take(m as int));
        }
        let start: usize = match last_index_of(file_path, m, '/') {
            Some(j) => j + 1,
            None => 0,
        };
        match last_index_of(file_path, m, '.') {
            None => false,
            Some(d) => {
                if d > start {
                    proof {
                        assert(file_path@.subrange(d + 1, m as int) =~= file_path@.take(
                            m as int,
                        ).subrange(d + 1, m as int));
                    }
                    let r = ext_eq_ci(file_path, d + 1, m, "jpg") || ext_eq_ci(
                        file_path,
                        d + 1,
                        m,
                        "jpeg",
                    ) || ext_eq_ci(file_path, d + 1, m, "png") || ext_eq_ci(
                        file_path,
                        d + 1,
                        m,
                        "bmp",
                    ) || ext_eq_ci(file_path, d + 1, m, "gif");
                    r
                } else {
                    false
                }
            },
        }
    }

    /// The image entries of a directory listing: those entries whose path
    /// is of a supported image type, in the listing's order. The caller
    /// lists the folder; a folder that cannot be listed is handed in as an
    /// empty listing and yields an empty result.
    pub fn filter_images(entries: &Vec<String>) -> (r: Vec<String>)
        ensures
            r.deep_view() == entries.deep_view().filter(|p: Seq<char>| is_image_path(p)),
    {
        let ghost pred: spec_fn(Seq<char>) -> bool = |p: Seq<char>| is_image_path(p);
        let mut out: Vec<String> = Vec::new();
        let mut i: usize = 0;
        proof {
            reveal(Seq::filter);
            assert(entries.deep_view().take(0).filter(pred) =~= Seq::<Seq<char>>::empty());
            assert(out.deep_view() =~= Seq::<Seq<char>>::empty());
        }
        while i < entries.len()
            invariant
                i <= entries.len(),
                pred == (|p: Seq<char>| is_image_path(p)),
                out.deep_view() == entries.deep_view().take(i as int).filter(pred),
            decreases entries.len() - i,
        {
            let ghost prev = out.deep_view();
            let keep = Self::is_image_type(entries[i].as_str());
            if keep {
                out.push(entries[i].clone());
            }
            proof {
                reveal(Seq::filter);
                let dv = entries.deep_view();
                let t1 = dv.take(i + 1);
                assert(t1.drop_last() =~= dv.take(i as int));
                assert(t1.last() == dv[i as int]);
                assert(dv[i as int] == entries@[i as int]@);
                assert(pred(dv[i as int]) == is_image_path(entries@[i as int]@));
                assert(pred(dv[i as int]) == keep);
                assert(t1.filter(pred) == (if pred(t1.last()) {
                    t1.drop_last().filter(pred).push(t1.last())
                } else {
                    t1.drop_last().filter(pred)
                }));
                if keep {
                    assert(out.deep_view() =~= prev.push(dv[i as int]));
                }
            }
            i = i + 1;
        }
        proof {
            assert(entries.deep_view().take(entries.len() as int) =~= entries.deep_view());
        }
        out
    }

    /// The number of grid columns for the available display width: the
    /// width divided by the minimum thumbnail width of 300 units, and at
    /// least one column.
    pub fn grid_columns(available_width: u64) -> (c: u64)
        ensures
            c == (if available_width / 300 > 0 {
                available_width / 300
            } else {
                1u64
            }),
    {
        let c = available_width / 300;
        if c > 0 {
            c
        } else {
            1
        }
    }
}

} // verus!
