//! Asset kinds of the editor: names, file extensions, and size statistics.

use vstd::prelude::*;
use vstd::arithmetic::power2::pow2;
use crate::text::{
    to_lowercase, lowercase_of, is_ascii_text, ascii_lower, equals_str, decimal, fixed1, div_round_half_even, binary64_round,
    append_decimal, append_fixed1, scaled_round, binary64_of,
};

verus! {

broadcast use vstd::string::group_string_axioms;

/// Kinds of game assets.
#[derive(Debug, Clone, Copy, PartialEq, Eq, Hash, Structural)]
pub enum AssetType {
    Image,
    Audio,
    Font,
    Script,
    Scene,
    Data,
    Model,
    Unknown,
}

/// The label of an asset kind.
pub open spec fn asset_type_name(t: AssetType) -> Seq<char> {
    match t {
        AssetType::Image => "Image"@,
        AssetType::Audio => "Audio"@,
        AssetType::Font => "Font"@,
        AssetType::Script => "Script"@,
        AssetType::Scene => "Scene"@,
        AssetType::Data => "Data"@,
        AssetType::Model => "Model"@,
        AssetType::Unknown => "Unknown"@,
    }
}

/// The lowercase file extensions of an asset kind.
pub open spec fn asset_type_extensions(t: AssetType) -> Seq<Seq<char>> {
    match t {
        AssetType::Image => seq!["png"@, "jpg"@, "jpeg"@, "gif"@, "bmp"@, "webp"@],
        AssetType::Audio => seq!["wav"@, "mp3"@, "ogg"@, "flac"@, "aac"@],
        AssetType::Font => seq!["ttf"@, "otf"@, "woff"@, "woff2"@],
        AssetType::Script => seq!["lua"@, "js"@, "py"@, "rs"@],
        AssetType::Scene => seq!["scene"@, "scn"@],
        AssetType::Data => seq!["json"@, "toml"@, "yaml"@, "yml"@, "xml"@],
        AssetType::Model => seq!["obj"@, "fbx"@, "gltf"@, "glb"@],
        AssetType::Unknown => Seq::empty(),
    }
}

/// The kind whose extension list holds the lowercased extension `e`, or
/// `Unknown`.
pub open spec fn asset_type_of_extension(e: Seq<char>) -> AssetType {
    if asset_type_extensions(AssetType::Image).contains(e) {
        AssetType::Image
    } else if asset_type_extensions(AssetType::Audio).contains(e) {
        AssetType::Audio
    } else if asset_type_extensions(AssetType::Font).contains(e) {
        AssetType::Font
    } else if asset_type_extensions(AssetType::Script).contains(e) {
        AssetType::Script
    } else if asset_type_extensions(AssetType::Scene).contains(e) {
        AssetType::Scene
    } else if asset_type_extensions(AssetType::Data).contains(e) {
        AssetType::Data
    } else if asset_type_extensions(AssetType::Model).contains(e) {
        AssetType::Model
    } else {
        AssetType::Unknown
    }
}

/// The views of a list of string slices.
pub open spec fn str_views(v: Seq<&str>) -> Seq<Seq<char>> {
    v.map_values(|o: &str| o@)
}

/// Whether `s` reads one of `options`.
fn equals_any(s: &String, options: &[&str]) -> (r: bool)
    ensures
        r == str_views(options@).contains(s@),
{
    let mut i: usize = 0;
    while i < options.len()
        invariant
            i <= options@.len(),
            forall|k: int| 0 <= k < i ==> options@[k]@ != s@,
        decreases options@.len() - i,
    {
        if equals_str(s, options[i]) {
            assert(str_views(options@)[i as int] == s@);
            return true;
        }
        i = i + 1;
    }
    assert(!str_views(options@).contains(s@)) by {
        if str_views(options@).contains(s@) {
            let k = choose|k: int|
                0 <= k < options@.len() && #[trigger] str_views(options@)[k] == s@;
            assert(options@[k]@ == s@);
        }
    }
    false
}

impl AssetType {
    /// The label of the kind.
    pub fn display_name(&self) -> (r: &'static str)
        ensures
            r@ == asset_type_name(*self),
    {
        match self {
            AssetType::Image => "Image",
            AssetType::Audio => "Audio",
            AssetType::Font => "Font",
            AssetType::Script => "Script",
            AssetType::Scene => "Scene",
            AssetType::Data => "Data",
            AssetType::Model => "Model",
            AssetType::Unknown => "Unknown",
        }
    }

    /// The lowercase file extensions of the kind.
    pub fn extensions(&self) -> (r: &'static [&'static str])
        ensures
            str_views(r@) == asset_type_extensions(*self),
    {
        let r: &'static [&'static str] = match self {
            AssetType::Image => &["png", "jpg", "jpeg", "gif", "bmp", "webp"],
            AssetType::Audio => &["wav", "mp3", "ogg", "flac", "aac"],
            AssetType::Font => &["ttf", "otf", "woff", "woff2"],
            AssetType::Script => &["lua", "js", "py", "rs"],
            AssetType::Scene => &["scene", "scn"],
            AssetType::Data => &["json", "toml", "yaml", "yml", "xml"],
            AssetType::Model => &["obj", "fbx", "gltf", "glb"],
            AssetType::Unknown => &[],
        };
        assert(str_views(r@) =~= asset_type_extensions(*self));
        r
    }

    /// The kind of a file extension, compared case-insensitively.
    pub fn from_extension(extension: &str) -> (r: AssetType)
        ensures
            r == asset_type_of_extension(lowercase_of(extension@)),
            is_ascii_text(extension@) ==> r == asset_type_of_extension(
                extension@.map_values(|c: char| ascii_lower(c)),
            ),
    {
        let e = to_lowercase(extension);
        if equals_any(&e, AssetType::Image.extensions()) {
            AssetType::Image
        } else if equals_any(&e, AssetType::Audio.extensions()) {
            AssetType::Audio
        } else if equals_any(&e, AssetType::Font.extensions()) {
            AssetType::Font
        } else if equals_any(&e, AssetType::Script.extensions()) {
            AssetType::Script
        } else if equals_any(&e, AssetType::Scene.extensions()) {
            AssetType::Scene
        } else if equals_any(&e, AssetType::Data.extensions()) {
            AssetType::Data
        } else if equals_any(&e, AssetType::Model.extensions()) {
            AssetType::Model
        } else {
            AssetType::Unknown
        }
    }
}

/// Every listed extension of a kind leads back to that kind: no extension
/// is listed for two kinds.
#[verifier::rlimit(50)]
pub proof fn law_extension_round_trip(t: AssetType, i: int)
    requires
        0 <= i < asset_type_extensions(t).len(),
    ensures
        asset_type_of_extension(asset_type_extensions(t)[i]) == t,
{
    reveal_strlit("png");
    reveal_strlit("jpg");
    reveal_strlit("jpeg");
    reveal_strlit("gif");
    reveal_strlit("bmp");
    reveal_strlit("webp");
    reveal_strlit("wav");
    reveal_strlit("mp3");
    reveal_strlit("ogg");
    reveal_strlit("flac");
    reveal_strlit("aac");
    reveal_strlit("ttf");
    reveal_strlit("otf");
    reveal_strlit("woff");
    reveal_strlit("woff2");
    reveal_strlit("lua");
    reveal_strlit("js");
    reveal_strlit("py");
    reveal_strlit("rs");
    reveal_strlit("scene");
    reveal_strlit("scn");
    reveal_strlit("json");
    reveal_strlit("toml");
    reveal_strlit("yaml");
    reveal_strlit("yml");
    reveal_strlit("xml");
    reveal_strlit("obj");
    reveal_strlit("fbx");
    reveal_strlit("gltf");
    reveal_strlit("glb");
    assert("png"@.len() == 3 && "png"@[0] == 'p' && "png"@[1] == 'n');
    assert("jpg"@.len() == 3 && "jpg"@[0] == 'j' && "jpg"@[1] == 'p');
    assert("jpeg"@.len() == 4 && "jpeg"@[0] == 'j' && "jpeg"@[1] == 'p');
    assert("gif"@.len() == 3 && "gif"@[0] == 'g' && "gif"@[1] == 'i');
    assert("bmp"@.len() == 3 && "bmp"@[0] == 'b' && "bmp"@[1] == 'm');
    assert("webp"@.len() == 4 && "webp"@[0] == 'w' && "webp"@[1] == 'e');
    assert("wav"@.len() == 3 && "wav"@[0] == 'w' && "wav"@[1] == 'a');
    assert("mp3"@.len() == 3 && "mp3"@[0] == 'm' && "mp3"@[1] == 'p');
    assert("ogg"@.len() == 3 && "ogg"@[0] == 'o' && "ogg"@[1] == 'g');
    assert("flac"@.len() == 4 && "flac"@[0] == 'f' && "flac"@[1] == 'l');
    assert("aac"@.len() == 3 && "aac"@[0] == 'a' && "aac"@[1] == 'a');
    assert("ttf"@.len() == 3 && "ttf"@[0] == 't' && "ttf"@[1] == 't');
    assert("otf"@.len() == 3 && "otf"@[0] == 'o' && "otf"@[1] == 't');
    assert("woff"@.len() == 4 && "woff"@[0] == 'w' && "woff"@[1] == 'o');
    assert("woff2"@.len() == 5 && "woff2"@[0] == 'w' && "woff2"@[1] == 'o');
    assert("lua"@.len() == 3 && "lua"@[0] == 'l' && "lua"@[1] == 'u');
    assert("js"@.len() == 2 && "js"@[0] == 'j' && "js"@[1] == 's');
    assert("py"@.len() == 2 && "py"@[0] == 'p' && "py"@[1] == 'y');
    assert("rs"@.len() == 2 && "rs"@[0] == 'r' && "rs"@[1] == 's');
    assert("scene"@.len() == 5 && "scene"@[0] == 's' && "scene"@[1] == 'c');
    assert("scn"@.len() == 3 && "scn"@[0] == 's' && "scn"@[1] == 'c');
    assert("json"@.len() == 4 && "json"@[0] == 'j' && "json"@[1] == 's');
    assert("toml"@.len() == 4 && "toml"@[0] == 't' && "toml"@[1] == 'o');
    assert("yaml"@.len() == 4 && "yaml"@[0] == 'y' && "yaml"@[1] == 'a');
    assert("yml"@.len() == 3 && "yml"@[0] == 'y' && "yml"@[1] == 'm');
    assert("xml"@.len() == 3 && "xml"@[0] == 'x' && "xml"@[1] == 'm');
    assert("obj"@.len() == 3 && "obj"@[0] == 'o' && "obj"@[1] == 'b');
    assert("fbx"@.len() == 3 && "fbx"@[0] == 'f' && "fbx"@[1] == 'b');
    assert("gltf"@.len() == 4 && "gltf"@[0] == 'g' && "gltf"@[1] == 'l');
    assert("glb"@.len() == 3 && "glb"@[0] == 'g' && "glb"@[1] == 'l');
    match t {
        AssetType::Image => {
            assert(i != 0 || asset_type_of_extension("png"@) == AssetType::Image);
            assert(i != 1 || asset_type_of_extension("jpg"@) == AssetType::Image);
            assert(i != 2 || asset_type_of_extension("jpeg"@) == AssetType::Image);
            assert(i != 3 || asset_type_of_extension("gif"@) == AssetType::Image);
            assert(i != 4 || asset_type_of_extension("bmp"@) == AssetType::Image);
            assert(i != 5 || asset_type_of_extension("webp"@) == AssetType::Image);
        },
        AssetType::Audio => {
            assert(i != 0 || asset_type_of_extension("wav"@) == AssetType::Audio);
            assert(i != 1 || asset_type_of_extension("mp3"@) == AssetType::Audio);
            assert(i != 2 || asset_type_of_extension("ogg"@) == AssetType::Audio);
            assert(i != 3 || asset_type_of_extension("flac"@) == AssetType::Audio);
            assert(i != 4 || asset_type_of_extension("aac"@) == AssetType::Audio);
        },
        AssetType::Font => {
            assert(i != 0 || asset_type_of_extension("ttf"@) == AssetType::Font);
            assert(i != 1 || asset_type_of_extension("otf"@) == AssetType::Font);
            assert(i != 2 || asset_type_of_extension("woff"@) == AssetType::Font);
            assert(i != 3 || asset_type_of_extension("woff2"@) == AssetType::Font);
        },
        AssetType::Script => {
            assert(i != 0 || asset_type_of_extension("lua"@) == AssetType::Script);
            assert(i != 1 || asset_type_of_extension("js"@) == AssetType::Script);
            assert(i != 2 || asset_type_of_extension("py"@) == AssetType::Script);
            assert(i != 3 || asset_type_of_extension("rs"@) == AssetType::Script);
        },
        AssetType::Scene => {
            assert(i != 0 || asset_type_of_extension("scene"@) == AssetType::Scene);
            assert(i != 1 || asset_type_of_extension("scn"@) == AssetType::Scene);
        },
        AssetType::Data => {
            assert(i != 0 || asset_type_of_extension("json"@) == AssetType::Data);
            assert(i != 1 || asset_type_of_extension("toml"@) == AssetType::Data);
            assert(i != 2 || asset_type_of_extension("yaml"@) == AssetType::Data);
            assert(i != 3 || asset_type_of_extension("yml"@) == AssetType::Data);
            assert(i != 4 || asset_type_of_extension("xml"@) == AssetType::Data);
        },
        AssetType::Model => {
            assert(i != 0 || asset_type_of_extension("obj"@) == AssetType::Model);
            assert(i != 1 || asset_type_of_extension("fbx"@) == AssetType::Model);
            assert(i != 2 || asset_type_of_extension("gltf"@) == AssetType::Model);
            assert(i != 3 || asset_type_of_extension("glb"@) == AssetType::Model);
        },
        AssetType::Unknown => {},
    }
}

/// ASCII uppercase of one character: `a`..=`z` become `A`..=`Z`.
pub open spec fn ascii_upper(c: char) -> char {
    if 97 <= (c as u32) <= 122 {
        ((c as u32) - 32) as char
    } else {
        c
    }
}

/// Every character is a lowercase ASCII letter or a digit.
pub open spec fn lower_alnum_text(s: Seq<char>) -> bool {
    forall|k: int|
        0 <= k < s.len() ==> (97 <= #[trigger] (s[k] as u32) <= 122 || 48 <= (s[k] as u32) <= 57)
}

/// Lowering a lowercase alphanumeric text, or its uppercase form, gives it
/// back; both are ASCII.
proof fn lemma_case_round_trip(e: Seq<char>)
    requires
        lower_alnum_text(e),
    ensures
        is_ascii_text(e),
        e.map_values(|c: char| ascii_lower(c)) == e,
        is_ascii_text(e.map_values(|c: char| ascii_upper(c))),
        e.map_values(|c: char| ascii_upper(c)).map_values(|c: char| ascii_lower(c)) == e,
{
    let u = e.map_values(|c: char| ascii_upper(c));
    assert forall|k: int| 0 <= k < e.len() implies (#[trigger] u[k] as u32) < 128 && ascii_lower(
        u[k],
    ) == e[k] && ascii_lower(e[k]) == e[k] by {
        let c = e[k];
        assert((c as u32) < 128);
        if 97 <= (c as u32) <= 122 {
            assert((((c as u32) - 32) as char) as u32 == (c as u32) - 32);
            let d = ((c as u32) - 32) as char;
            assert((d as u32) + 32 == c as u32);
            vstd::utf8::char_u32_cast(c, (d as u32 + 32) as u32);
        }
    }
    assert(e.map_values(|c: char| ascii_lower(c)) =~= e);
    assert(u.map_values(|c: char| ascii_lower(c)) =~= e);
}

/// Every listed extension is lowercase letters and digits.
proof fn lemma_extensions_lower_alnum(t: AssetType, i: int)
    requires
        0 <= i < asset_type_extensions(t).len(),
    ensures
        lower_alnum_text(asset_type_extensions(t)[i]),
{
    match t {
        AssetType::Image => {
            reveal_strlit("png");
            reveal_strlit("jpg");
            reveal_strlit("jpeg");
            reveal_strlit("gif");
            reveal_strlit("bmp");
            reveal_strlit("webp");
            assert(i != 0 || lower_alnum_text("png"@));
            assert(i != 1 || lower_alnum_text("jpg"@));
            assert(i != 2 || lower_alnum_text("jpeg"@));
            assert(i != 3 || lower_alnum_text("gif"@));
            assert(i != 4 || lower_alnum_text("bmp"@));
            assert(i != 5 || lower_alnum_text("webp"@));
        },
        AssetType::Audio => {
            reveal_strlit("wav");
            reveal_strlit("mp3");
            reveal_strlit("ogg");
            reveal_strlit("flac");
            reveal_strlit("aac");
            assert(i != 0 || lower_alnum_text("wav"@));
            assert(i != 1 || lower_alnum_text("mp3"@));
            assert(i != 2 || lower_alnum_text("ogg"@));
            assert(i != 3 || lower_alnum_text("flac"@));
            assert(i != 4 || lower_alnum_text("aac"@));
        },
        AssetType::Font => {
            reveal_strlit("ttf");
            reveal_strlit("otf");
            reveal_strlit("woff");
            reveal_strlit("woff2");
            assert(i != 0 || lower_alnum_text("ttf"@));
            assert(i != 1 || lower_alnum_text("otf"@));
            assert(i != 2 || lower_alnum_text("woff"@));
            assert(i != 3 || lower_alnum_text("woff2"@));
        },
        AssetType::Script => {
            reveal_strlit("lua");
            reveal_strlit("js");
            reveal_strlit("py");
            reveal_strlit("rs");
            assert(i != 0 || lower_alnum_text("lua"@));
            assert(i != 1 || lower_alnum_text("js"@));
            assert(i != 2 || lower_alnum_text("py"@));
            assert(i != 3 || lower_alnum_text("rs"@));
        },
        AssetType::Scene => {
            reveal_strlit("scene");
            reveal_strlit("scn");
            assert(i != 0 || lower_alnum_text("scene"@));
            assert(i != 1 || lower_alnum_text("scn"@));
        },
        AssetType::Data => {
            reveal_strlit("json");
            reveal_strlit("toml");
            reveal_strlit("yaml");
            reveal_strlit("yml");
            reveal_strlit("xml");
            assert(i != 0 || lower_alnum_text("json"@));
            assert(i != 1 || lower_alnum_text("toml"@));
            assert(i != 2 || lower_alnum_text("yaml"@));
            assert(i != 3 || lower_alnum_text("yml"@));
            assert(i != 4 || lower_alnum_text("xml"@));
        },
        AssetType::Model => {
            reveal_strlit("obj");
            reveal_strlit("fbx");
            reveal_strlit("gltf");
            reveal_strlit("glb");
            assert(i != 0 || lower_alnum_text("obj"@));
            assert(i != 1 || lower_alnum_text("fbx"@));
            assert(i != 2 || lower_alnum_text("gltf"@));
            assert(i != 3 || lower_alnum_text("glb"@));
        },
        AssetType::Unknown => {},
    }
}

/// Case does not matter for listed extensions: each one, and its ASCII
/// uppercase form, is ASCII text whose lowercase is the extension itself,
/// so `from_extension` gives back its kind for both.
pub proof fn law_extension_case_round_trip(t: AssetType, i: int)
    requires
        0 <= i < asset_type_extensions(t).len(),
    ensures
        is_ascii_text(asset_type_extensions(t)[i]),
        asset_type_of_extension(
            asset_type_extensions(t)[i].map_values(|c: char| ascii_lower(c)),
        ) == t,
        is_ascii_text(asset_type_extensions(t)[i].map_values(|c: char| ascii_upper(c))),
        asset_type_of_extension(
            asset_type_extensions(t)[i].map_values(|c: char| ascii_upper(c)).map_values(
                |c: char| ascii_lower(c),
            ),
        ) == t,
{
    lemma_extensions_lower_alnum(t, i);
    lemma_case_round_trip(asset_type_extensions(t)[i]);
    law_extension_round_trip(t, i);
}

/// `Unknown` lists no extension, and an extension listed for no kind is
/// `Unknown`.
pub proof fn law_unlisted_is_unknown(e: Seq<char>)
    ensures
        asset_type_extensions(AssetType::Unknown).len() == 0,
        (forall|t: AssetType| !#[trigger] asset_type_extensions(t).contains(e))
            ==> asset_type_of_extension(e) == AssetType::Unknown,
{
}

/// Count and total size of the assets of one kind.
#[derive(Debug)]
pub struct TypeStats {
    pub count: usize,
    pub size: u64,
}

/// Statistics over an asset collection.
#[derive(Debug)]
pub struct AssetStats {
    pub total_assets: usize,
    pub total_size: u64,
    /// Per-kind figures, one entry per kind present.
    pub by_type: Vec<(AssetType, TypeStats)>,
}

/// The label `total_size_string` gives: whole bytes below 1 KB ("512 B"),
/// else the size as a binary64 float divided by KB, MB or GB (GB for
/// everything from 1 GB up), rounded half to even to one decimal.
pub open spec fn size_text(size: nat) -> Seq<char> {
    if size < 0x400 {
        decimal(size) + seq![' ', 'B']
    } else if size < 0x10_0000 {
        fixed1(div_round_half_even(binary64_round(size) * 10, pow2(10))) + seq![' ', 'K', 'B']
    } else if size < 0x4000_0000 {
        fixed1(div_round_half_even(binary64_round(size) * 10, pow2(20))) + seq![' ', 'M', 'B']
    } else {
        fixed1(div_round_half_even(binary64_round(size) * 10, pow2(30))) + seq![' ', 'G', 'B']
    }
}

/// A byte count as a label such as "512 B" or "1.5 KB".
pub fn size_label(size: u64) -> (r: String)
    ensures
        r@ == size_text(size as nat),
{
    let mut s = String::new();
    proof {
        reveal_strlit(" B");
        reveal_strlit(" KB");
        reveal_strlit(" MB");
        reveal_strlit(" GB");
    }
    if size < 0x400 {
        append_decimal(&mut s, size as u128);
        s.append(" B");
        return s;
    }
    let m = binary64_of(size);
    if size < 0x10_0000 {
        append_fixed1(&mut s, scaled_round(m * 10, 10));
        s.append(" KB");
    } else if size < 0x4000_0000 {
        append_fixed1(&mut s, scaled_round(m * 10, 20));
        s.append(" MB");
    } else {
        append_fixed1(&mut s, scaled_round(m * 10, 30));
        s.append(" GB");
    }
    s
}

impl AssetStats {
    /// The total size as a label such as "512 B" or "1.5 KB".
    pub fn total_size_string(&self) -> (r: String)
        ensures
            r@ == size_text(self.total_size as nat),
    {
        size_label(self.total_size)
    }
}

} // verus!
