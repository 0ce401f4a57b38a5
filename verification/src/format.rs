use crate::error::ExtractError;
use crate::paths::split_path;
use vstd::prelude::*;

verus! {

/// The container formats the tool recognizes, selected by the target's
/// file extension.
#[derive(Clone, Copy, PartialEq, Eq, Structural, Debug)]
pub enum Format {
    TarGz,
    TarXz,
    Zip,
}

/// The position of the last `.` in a name, if any.
pub open spec fn last_dot(s: Seq<u8>) -> Option<int>
    decreases s.len(),
{
    if s.len() == 0 {
        None
    } else if s[s.len() - 1] == 46u8 {
        Some(s.len() - 1)
    } else {
        last_dot(s.take(s.len() - 1))
    }
}

/// The extension of a file name: the bytes after the last `.`, provided
/// that dot is not the leading byte (a name such as `.profile` carries
/// no extension).
pub open spec fn ext_of(name: Seq<u8>) -> Option<Seq<u8>> {
    match last_dot(name) {
        Some(i) => if i > 0 {
            Some(name.skip(i + 1))
        } else {
            None
        },
        None => None,
    }
}

/// The format a target path selects: by the extension of its last
/// component (`gz`, `xz` or `zip`), `None` where there is none or it is
/// not recognized.
pub open spec fn format_of(target: Seq<u8>) -> Option<Format> {
    let comps = split_path(target);
    if comps.len() == 0 {
        None
    } else {
        match ext_of(comps.last()) {
            Some(e) => if e == seq![103u8, 122u8] {
                Some(Format::TarGz)
            } else if e == seq![120u8, 122u8] {
                Some(Format::TarXz)
            } else if e == seq![122u8, 105u8, 112u8] {
                Some(Format::Zip)
            } else {
                None
            },
            None => None,
        }
    }
}

/// Classify a target path by its extension, or report that no supported
/// format can be read off it.
pub fn detect_format(target: &[u8]) -> (r: Result<Format, ExtractError>)
    ensures
        r matches Ok(f) ==> format_of(target@) == Some(f),
        r is Err <==> format_of(target@) is None,
        r matches Err(e) ==> e == ExtractError::UnrecognizedFormat,
{
    let comps = crate::paths::split_path_exec(target);
    if comps.len() == 0 {
        return Err(ExtractError::UnrecognizedFormat);
    }
    let name = &comps[comps.len() - 1];
    let ghost nm = name@;
    proof {
        assert(split_path(target@).last() =~= nm);
    }
    let mut j: usize = name.len();
    let mut dot: usize = 0;
    let mut found = false;
    proof {
        assert(nm.take(j as int) =~= nm);
    }
    while j > 0 && !found
        invariant
            j <= name.len(),
            nm == name@,
            !found ==> last_dot(nm) == last_dot(nm.take(j as int)),
            found ==> j >= 1 && last_dot(nm) == Some(j as int - 1) && dot == j - 1,
        decreases j, (if found { 0int } else { 1int }),
    {
        if name[j - 1] == 46u8 {
            found = true;
            dot = j - 1;
            proof {
                assert(nm.take(j as int).len() == j);
                assert(nm.take(j as int)[j - 1] == 46u8);
                assert(last_dot(nm.take(j as int)) == Some(j as int - 1));
            }
        } else {
            proof {
                assert(nm.take(j as int).len() == j);
                assert(nm.take(j as int)[j - 1] != 46u8);
                assert(nm.take(j as int).take(j as int - 1) =~= nm.take(j as int - 1));
            }
            j = j - 1;
        }
    }
    if !found {
        proof {
            assert(nm.take(0) =~= Seq::<u8>::empty());
            assert(last_dot(nm) is None);
        }
        return Err(ExtractError::UnrecognizedFormat);
    }
    if dot == 0 {
        return Err(ExtractError::UnrecognizedFormat);
    }
    let ghost e = nm.skip(dot as int + 1);
    proof {
        assert(ext_of(nm) == Some(e));
        assert(e.len() == nm.len() - dot - 1);
    }
    let elen: usize = name.len() - dot - 1;
    if elen == 2 && name[dot + 1] == 103u8 && name[dot + 2] == 122u8 {
        proof {
            assert(e =~= seq![103u8, 122u8]);
        }
        Ok(Format::TarGz)
    } else if elen == 2 && name[dot + 1] == 120u8 && name[dot + 2] == 122u8 {
        proof {
            assert(e =~= seq![120u8, 122u8]);
        }
        Ok(Format::TarXz)
    } else if elen == 3 && name[dot + 1] == 122u8 && name[dot + 2] == 105u8 && name[dot + 3]
        == 112u8 {
        proof {
            assert(e =~= seq![122u8, 105u8, 112u8]);
        }
        Ok(Format::Zip)
    } else {
        proof {
            if e.len() == 2 {
                assert(e[0] == nm[dot + 1]);
                assert(e[1] == nm[dot + 2]);
                assert(e != seq![103u8, 122u8] && e != seq![120u8, 122u8]);
                assert(e != seq![122u8, 105u8, 112u8]);
            } else if e.len() == 3 {
                assert(e[0] == nm[dot + 1]);
                assert(e[1] == nm[dot + 2] && e[2] == nm[dot + 3]);
                assert(e != seq![122u8, 105u8, 112u8]);
                assert(e != seq![103u8, 122u8] && e != seq![120u8, 122u8]);
            } else {
                assert(e != seq![103u8, 122u8] && e != seq![120u8, 122u8] && e != seq![
                    122u8,
                    105u8,
                    112u8,
                ]);
            }
        }
        Err(ExtractError::UnrecognizedFormat)
    }
}

} // verus!
