//! Path strings and the operations module resolution needs.
//!
//! Paths are plain `/`-separated strings. Resolution needs three operations:
//! dropping the last component of a path, attaching a relative specifier to
//! a directory, and forming a path with a given extension the way the
//! resolver's candidate loop does.

use vstd::prelude::*;

verus! {

/// The path with its last `/`-separated component removed, separator
/// included; a path without a separator shrinks to the empty path.
pub open spec fn parent_dir(p: Seq<char>) -> Seq<char>
    decreases p.len(),
{
    if p.len() == 0 {
        p
    } else if p.last() == '/' {
        p.drop_last()
    } else {
        parent_dir(p.drop_last())
    }
}

/// Index of the dot that starts the extension of the last path component:
/// the last `.` of the last component, unless it stands first in that
/// component (a leading-dot name has no extension).
pub open spec fn ext_dot(p: Seq<char>) -> Option<int>
    decreases p.len(),
{
    if p.len() == 0 {
        None
    } else if p.last() == '/' {
        None
    } else if p.last() == '.' && p.len() >= 2 && p[p.len() - 2] != '/' {
        Some(p.len() - 1)
    } else {
        ext_dot(p.drop_last())
    }
}

/// The path with its extension replaced by `ext`, or with `.ext` appended
/// when the last component has no extension.
pub open spec fn with_extension(p: Seq<char>, ext: Seq<char>) -> Seq<char> {
    match ext_dot(p) {
        Some(j) => p.take(j) + seq!['.'] + ext,
        None => p + seq!['.'] + ext,
    }
}

/// A relative specifier attached to a directory: leading `./` segments are
/// dropped, each leading `../` segment removes one component from the
/// directory, and what remains is attached behind a separator. `None` when a
/// `..` asks for the parent of an already empty directory path.
pub open spec fn join_relative(dir: Seq<char>, rel: Seq<char>) -> Option<Seq<char>>
    decreases rel.len(),
{
    if rel.len() == 0 {
        Some(dir)
    } else if rel[0] != '.' {
        Some(dir + seq!['/'] + rel)
    } else if rel.len() == 1 {
        Some(dir)
    } else if rel[1] == '/' {
        join_relative(dir, rel.skip(2))
    } else if rel[1] != '.' {
        Some(dir + seq!['/'] + rel)
    } else if rel.len() == 2 {
        if dir.len() == 0 {
            None
        } else {
            Some(parent_dir(dir))
        }
    } else if rel[2] == '/' {
        if dir.len() == 0 {
            None
        } else {
            join_relative(parent_dir(dir), rel.skip(3))
        }
    } else {
        Some(dir + seq!['/'] + rel)
    }
}

pub fn parent_dir_of(p: &str) -> (r: String)
    ensures
        r@ == parent_dir(p@),
{
    let len = p.unicode_len();
    proof {
        assert(p@.subrange(0, len as int) =~= p@);
    }
    let mut i: usize = len;
    while i > 0
        invariant
            i <= len,
            len == p@.len(),
            parent_dir(p@) == parent_dir(p@.subrange(0, i as int)),
        decreases i,
    {
        proof {
            assert(p@.subrange(0, i as int).last() == p@[i - 1]);
            assert(p@.subrange(0, i as int).drop_last() =~= p@.subrange(0, i - 1));
        }
        if p.get_char(i - 1) == '/' {
            let r = p.substring_char(0, i - 1);
            return r.to_owned();
        }
        i -= 1;
    }
    proof {
        assert(p@.subrange(0, 0) =~= Seq::<char>::empty());
    }
    String::new()
}

pub fn set_path_extension(p: &str, ext: &str) -> (r: String)
    ensures
        r@ == with_extension(p@, ext@),
{
    let len = p.unicode_len();
    proof {
        assert(p@.subrange(0, len as int) =~= p@);
    }
    let mut i: usize = len;
    let mut cut: usize = 0;
    let mut found = false;
    let mut done = false;
    while i > 0 && !done
        invariant
            i <= len,
            len == p@.len(),
            found ==> done,
            if found {
                ext_dot(p@) == Some(cut as int) && cut < len
            } else if done {
                ext_dot(p@) is None
            } else {
                ext_dot(p@) == ext_dot(p@.subrange(0, i as int))
            },
        decreases i + (if done {
            0int
        } else {
            1int
        }),
    {
        proof {
            assert(p@.subrange(0, i as int).last() == p@[i - 1]);
            assert(p@.subrange(0, i as int).drop_last() =~= p@.subrange(0, i - 1));
        }
        let c = p.get_char(i - 1);
        if c == '/' {
            done = true;
        } else if c == '.' && i >= 2 && p.get_char(i - 2) != '/' {
            proof {
                assert(p@.subrange(0, i as int)[i - 2] == p@[i - 2]);
            }
            cut = i - 1;
            found = true;
            done = true;
        } else {
            i -= 1;
        }
    }
    proof {
        if !done {
            assert(p@.subrange(0, 0) =~= Seq::<char>::empty());
            assert(ext_dot(p@) is None);
        }
        reveal_strlit(".");
        assert("."@ =~= seq!['.']);
    }
    let stem = if found {
        p.substring_char(0, cut)
    } else {
        p
    };
    let mut out = stem.to_owned();
    out.append(".");
    out.append(ext);
    proof {
        if found {
            assert(p@.take(cut as int) == p@.subrange(0, cut as int));
        }
    }
    out
}

fn attach_rest(cur: String, rel: &str, i: usize, len: usize) -> (r: String)
    requires
        i <= len,
        len == rel@.len(),
    ensures
        r@ == cur@ + seq!['/'] + rel@.skip(i as int),
{
    proof {
        reveal_strlit("/");
        assert("/"@ =~= seq!['/']);
    }
    let mut out = cur;
    out.append("/");
    let rest = rel.substring_char(i, len);
    out.append(rest);
    proof {
        assert(rel@.subrange(i as int, len as int) =~= rel@.skip(i as int));
    }
    out
}

pub fn join_relative_path(dir: &str, rel: &str) -> (r: Option<String>)
    ensures
        match r {
            Some(p) => join_relative(dir@, rel@) == Some(p@),
            None => join_relative(dir@, rel@) is None,
        },
{
    let len = rel.unicode_len();
    let mut cur = dir.to_owned();
    let mut i: usize = 0;
    proof {
        assert(rel@.skip(0) =~= rel@);
    }
    loop
        invariant
            i <= len,
            len == rel@.len(),
            join_relative(dir@, rel@) == join_relative(cur@, rel@.skip(i as int)),
        decreases len - i,
    {
        let ghost rest = rel@.skip(i as int);
        if i == len {
            proof {
                assert(rest.len() == 0);
            }
            return Some(cur);
        }
        let c0 = rel.get_char(i);
        proof {
            assert(rest[0] == rel@[i as int]);
        }
        if c0 != '.' {
            return Some(attach_rest(cur, rel, i, len));
        }
        if i + 1 == len {
            proof {
                assert(rest.len() == 1);
            }
            return Some(cur);
        }
        let c1 = rel.get_char(i + 1);
        proof {
            assert(rest[1] == rel@[i + 1]);
        }
        if c1 == '/' {
            proof {
                assert(rest.skip(2) =~= rel@.skip(i + 2));
            }
            i += 2;
        } else if c1 != '.' {
            return Some(attach_rest(cur, rel, i, len));
        } else if i + 2 == len {
            proof {
                assert(rest.len() == 2);
            }
            if cur.as_str().unicode_len() == 0 {
                proof {
                    assert(cur@.len() == 0);
                }
                return None;
            }
            let parent = parent_dir_of(cur.as_str());
            return Some(parent);
        } else {
            let c2 = rel.get_char(i + 2);
            proof {
                assert(rest[2] == rel@[i + 2]);
            }
            if c2 == '/' {
                if cur.as_str().unicode_len() == 0 {
                    return None;
                }
                proof {
                    assert(rest.skip(3) =~= rel@.skip(i + 3));
                }
                cur = parent_dir_of(cur.as_str());
                i += 3;
            } else {
                return Some(attach_rest(cur, rel, i, len));
            }
        }
    }
}

} // verus!
