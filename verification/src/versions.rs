//! Identification of the game executable by its byte size, and the static
//! table of where that executable keeps the map head, graph head and
//! Huffman dictionary.

use vstd::prelude::*;

use crate::error::DecodeError;

verus! {

/// Where the resource tables sit inside one version of the executable.
#[derive(Debug, Clone, Copy, PartialEq, Eq, Structural)]
pub struct ExeOffsets {
    pub map_head_offset: usize,
    pub map_head_len: usize,
    pub graph_head_offset: usize,
    pub graph_head_len: usize,
    pub graph_dict_offset: usize,
    pub graph_dict_len: usize,
}

/// The known releases, told apart by executable size alone.
#[derive(Debug, Clone, Copy, PartialEq, Eq, Structural)]
pub enum ExeVersion {
    Keen4_1_0Demo,
    Keen4_1_0,
    Keen4_1_1,
    Keen4_1_2,
    Keen4_1_4,
    Keen4_1_4g,
    Keen5_1_0,
    Keen5_1_4,
    Keen5_1_4g,
    Keen6_1_0Demo,
    Keen6_1_0Promo,
    Keen6_1_0,
    Keen6_1_4,
    Keen6_1_5,
}

/// Which release an executable of `size` bytes is, if any.
pub open spec fn version_for_size(size: usize) -> Option<ExeVersion> {
    if size == 262240 {
        Some(ExeVersion::Keen4_1_0Demo)
    } else if size == 258064 {
        Some(ExeVersion::Keen4_1_0)
    } else if size == 259232 {
        Some(ExeVersion::Keen4_1_1)
    } else if size == 259920 {
        Some(ExeVersion::Keen4_1_2)
    } else if size == 263488 {
        Some(ExeVersion::Keen4_1_4)
    } else if size == 264864 {
        Some(ExeVersion::Keen4_1_4g)
    } else if size == 262176 {
        Some(ExeVersion::Keen5_1_0)
    } else if size == 266096 {
        Some(ExeVersion::Keen5_1_4)
    } else if size == 267616 {
        Some(ExeVersion::Keen5_1_4g)
    } else if size == 236112 {
        Some(ExeVersion::Keen6_1_0Demo)
    } else if size == 238368 {
        Some(ExeVersion::Keen6_1_0Promo)
    } else if size == 266032 {
        Some(ExeVersion::Keen6_1_0)
    } else if size == 271696 {
        Some(ExeVersion::Keen6_1_4)
    } else if size == 270896 {
        Some(ExeVersion::Keen6_1_5)
    } else {
        None
    }
}

/// The table locations each release uses.
pub open spec fn offsets_for_version(v: ExeVersion) -> ExeOffsets {
    match v {
        ExeVersion::Keen4_1_0Demo => ExeOffsets {
            map_head_offset: 136336,
            map_head_len: (402 + 23004) as usize,
            graph_head_offset: 159744,
            graph_head_len: 18780,
            graph_dict_offset: 229382,
            graph_dict_len: 1024,
        },
        ExeVersion::Keen4_1_0 => ExeOffsets {
            map_head_offset: 156592,
            map_head_len: (402 + 23004) as usize,
            graph_head_offset: 142352,
            graph_head_len: 14232,
            graph_dict_offset: 225782,
            graph_dict_len: 1024,
        },
        ExeVersion::Keen4_1_1 => ExeOffsets {
            map_head_offset: 157568,
            map_head_len: (402 + 23004) as usize,
            graph_head_offset: 143328,
            graph_head_len: 14232,
            graph_dict_offset: 226946,
            graph_dict_len: 1024,
        },
        ExeVersion::Keen4_1_2 => ExeOffsets {
            map_head_offset: 158176,
            map_head_len: (402 + 23004) as usize,
            graph_head_offset: 143920,
            graph_head_len: 14256,
            graph_dict_offset: 227636,
            graph_dict_len: 1024,
        },
        ExeVersion::Keen4_1_4 => ExeOffsets {
            map_head_offset: 161328,
            map_head_len: (402 + 23004) as usize,
            graph_head_offset: 147072,
            graph_head_len: 14256,
            graph_dict_offset: 231158,
            graph_dict_len: 1024,
        },
        ExeVersion::Keen4_1_4g => ExeOffsets {
            map_head_offset: 162576,
            map_head_len: (402 + 23004) as usize,
            graph_head_offset: 148320,
            graph_head_len: 14256,
            graph_dict_offset: 232406,
            graph_dict_len: 1024,
        },
        ExeVersion::Keen5_1_0 => ExeOffsets {
            map_head_offset: 161664,
            map_head_len: (402 + 23688) as usize,
            graph_head_offset: 146864,
            graph_head_len: 14796,
            graph_dict_offset: 229258,
            graph_dict_len: 1024,
        },
        ExeVersion::Keen5_1_4 => ExeOffsets {
            map_head_offset: 165264,
            map_head_len: (402 + 23688) as usize,
            graph_head_offset: 150464,
            graph_head_len: 14796,
            graph_dict_offset: 233156,
            graph_dict_len: 1024,
        },
        ExeVersion::Keen5_1_4g => ExeOffsets {
            map_head_offset: 166640,
            map_head_len: (402 + 23688) as usize,
            graph_head_offset: 151840,
            graph_head_len: 14796,
            graph_dict_offset: 234532,
            graph_dict_len: 1024,
        },
        ExeVersion::Keen6_1_0Demo => ExeOffsets {
            map_head_offset: 137568,
            map_head_len: (402 + 19152) as usize,
            graph_head_offset: 124464,
            graph_head_len: 13098,
            graph_dict_offset: 204352,
            graph_dict_len: 1024,
        },
        ExeVersion::Keen6_1_0Promo => ExeOffsets {
            map_head_offset: 139920,
            map_head_len: (402 + 19152) as usize,
            graph_head_offset: 126816,
            graph_head_len: 13098,
            graph_dict_offset: 206614,
            graph_dict_len: 1024,
        },
        ExeVersion::Keen6_1_0 => ExeOffsets {
            map_head_offset: 157776,
            map_head_len: (402 + 23904) as usize,
            graph_head_offset: 141088,
            graph_head_len: 16683,
            graph_dict_offset: 231698,
            graph_dict_len: 1024,
        },
        ExeVersion::Keen6_1_4 => ExeOffsets {
            map_head_offset: 162944,
            map_head_len: (402 + 23904) as usize,
            graph_head_offset: 146256,
            graph_head_len: 16683,
            graph_dict_offset: 237294,
            graph_dict_len: 1024,
        },
        ExeVersion::Keen6_1_5 => ExeOffsets {
            map_head_offset: 181984,
            map_head_len: (402 + 23904) as usize,
            graph_head_offset: 165296,
            graph_head_len: 16683,
            graph_dict_offset: 236366,
            graph_dict_len: 1024,
        },
    }
}

/// Identifies the release from the executable's size; a size no release
/// has is rejected as malformed.
pub fn determine_exe_version(exe_size: usize) -> (r: Result<ExeVersion, DecodeError>)
    ensures
        (match r {
            Ok(v) => version_for_size(exe_size) == Some(v),
            Err(e) => version_for_size(exe_size) is None && e == (DecodeError::MalformedContainer {
                found: exe_size,
                expected: 0,
            }),
        }),
{
    match exe_size {
        262240 => Ok(ExeVersion::Keen4_1_0Demo),
        258064 => Ok(ExeVersion::Keen4_1_0),
        259232 => Ok(ExeVersion::Keen4_1_1),
        259920 => Ok(ExeVersion::Keen4_1_2),
        263488 => Ok(ExeVersion::Keen4_1_4),
        264864 => Ok(ExeVersion::Keen4_1_4g),
        262176 => Ok(ExeVersion::Keen5_1_0),
        266096 => Ok(ExeVersion::Keen5_1_4),
        267616 => Ok(ExeVersion::Keen5_1_4g),
        236112 => Ok(ExeVersion::Keen6_1_0Demo),
        238368 => Ok(ExeVersion::Keen6_1_0Promo),
        266032 => Ok(ExeVersion::Keen6_1_0),
        271696 => Ok(ExeVersion::Keen6_1_4),
        270896 => Ok(ExeVersion::Keen6_1_5),
        _ => Err(DecodeError::MalformedContainer { found: exe_size, expected: 0 }),
    }
}

impl ExeVersion {
    /// The table locations this release uses.
    pub fn offsets(&self) -> (r: ExeOffsets)
        ensures
            r == offsets_for_version(*self),
    {
        match self {
            ExeVersion::Keen4_1_0Demo => ExeOffsets {
                map_head_offset: 136336,
                map_head_len: 402 + 23004,
                graph_head_offset: 159744,
                graph_head_len: 18780,
                graph_dict_offset: 229382,
                graph_dict_len: 1024,
            },
            ExeVersion::Keen4_1_0 => ExeOffsets {
                map_head_offset: 156592,
                map_head_len: 402 + 23004,
                graph_head_offset: 142352,
                graph_head_len: 14232,
                graph_dict_offset: 225782,
                graph_dict_len: 1024,
            },
            ExeVersion::Keen4_1_1 => ExeOffsets {
                map_head_offset: 157568,
                map_head_len: 402 + 23004,
                graph_head_offset: 143328,
                graph_head_len: 14232,
                graph_dict_offset: 226946,
                graph_dict_len: 1024,
            },
            ExeVersion::Keen4_1_2 => ExeOffsets {
                map_head_offset: 158176,
                map_head_len: 402 + 23004,
                graph_head_offset: 143920,
                graph_head_len: 14256,
                graph_dict_offset: 227636,
                graph_dict_len: 1024,
            },
            ExeVersion::Keen4_1_4 => ExeOffsets {
                map_head_offset: 161328,
                map_head_len: 402 + 23004,
                graph_head_offset: 147072,
                graph_head_len: 14256,
                graph_dict_offset: 231158,
                graph_dict_len: 1024,
            },
            ExeVersion::Keen4_1_4g => ExeOffsets {
                map_head_offset: 162576,
                map_head_len: 402 + 23004,
                graph_head_offset: 148320,
                graph_head_len: 14256,
                graph_dict_offset: 232406,
                graph_dict_len: 1024,
            },
            ExeVersion::Keen5_1_0 => ExeOffsets {
                map_head_offset: 161664,
                map_head_len: 402 + 23688,
                graph_head_offset: 146864,
                graph_head_len: 14796,
                graph_dict_offset: 229258,
                graph_dict_len: 1024,
            },
            ExeVersion::Keen5_1_4 => ExeOffsets {
                map_head_offset: 165264,
                map_head_len: 402 + 23688,
                graph_head_offset: 150464,
                graph_head_len: 14796,
                graph_dict_offset: 233156,
                graph_dict_len: 1024,
            },
            ExeVersion::Keen5_1_4g => ExeOffsets {
                map_head_offset: 166640,
                map_head_len: 402 + 23688,
                graph_head_offset: 151840,
                graph_head_len: 14796,
                graph_dict_offset: 234532,
                graph_dict_len: 1024,
            },
            ExeVersion::Keen6_1_0Demo => ExeOffsets {
                map_head_offset: 137568,
                map_head_len: 402 + 19152,
                graph_head_offset: 124464,
                graph_head_len: 13098,
                graph_dict_offset: 204352,
                graph_dict_len: 1024,
            },
            ExeVersion::Keen6_1_0Promo => ExeOffsets {
                map_head_offset: 139920,
                map_head_len: 402 + 19152,
                graph_head_offset: 126816,
                graph_head_len: 13098,
                graph_dict_offset: 206614,
                graph_dict_len: 1024,
            },
            ExeVersion::Keen6_1_0 => ExeOffsets {
                map_head_offset: 157776,
                map_head_len: 402 + 23904,
                graph_head_offset: 141088,
                graph_head_len: 16683,
                graph_dict_offset: 231698,
                graph_dict_len: 1024,
            },
            ExeVersion::Keen6_1_4 => ExeOffsets {
                map_head_offset: 162944,
                map_head_len: 402 + 23904,
                graph_head_offset: 146256,
                graph_head_len: 16683,
                graph_dict_offset: 237294,
                graph_dict_len: 1024,
            },
            ExeVersion::Keen6_1_5 => ExeOffsets {
                map_head_offset: 181984,
                map_head_len: 402 + 23904,
                graph_head_offset: 165296,
                graph_head_len: 16683,
                graph_dict_offset: 236366,
                graph_dict_len: 1024,
            },
        }
    }
}

} // verus!
