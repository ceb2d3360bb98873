//! The fixed list of installable fonts.

use vstd::prelude::*;
use vstd::string::*;
use crate::text::decimal;
use crate::text::decimal_digits;
use crate::text::ends_with;
use crate::text::joined_with;

verus! {

/// One font family of the catalog.
#[derive(Clone, Debug, PartialEq, Eq)]
pub struct FontInfo {
    /// Display name, unique within the catalog.
    pub name: String,
    /// File name of the release archive.
    pub asset_name: String,
    pub description: String,
    /// Style names, for display.
    pub variants: Vec<String>,
    /// Approximate download size in tenths of a megabyte.
    pub size_tenths_mb: u32,
}

/// What a `FontInfo` holds, as mathematical values.
pub struct FontModel {
    pub name: Seq<char>,
    pub asset_name: Seq<char>,
    pub description: Seq<char>,
    pub variants: Seq<Seq<char>>,
    pub size_tenths_mb: u32,
}

impl View for FontInfo {
    type V = FontModel;

    open spec fn view(&self) -> FontModel {
        FontModel {
            name: self.name@,
            asset_name: self.asset_name@,
            description: self.description@,
            variants: self.variants@.map_values(|s: String| s@),
            size_tenths_mb: self.size_tenths_mb,
        }
    }
}

/// A size in tenths of a megabyte, written in megabytes with one decimal.
pub open spec fn size_text_of(tenths: u32) -> Seq<char> {
    decimal_digits((tenths / 10) as nat) + "."@ + decimal_digits((tenths % 10) as nat)
}

/// The models of a list of fonts, in order.
pub open spec fn models(fonts: Seq<FontInfo>) -> Seq<FontModel> {
    fonts.map_values(|f: FontInfo| f@)
}

/// The model of a font with three variants.
pub open spec fn font_model(
    name: Seq<char>,
    asset_name: Seq<char>,
    description: Seq<char>,
    first: Seq<char>,
    second: Seq<char>,
    third: Seq<char>,
    size_tenths_mb: u32,
) -> FontModel {
    FontModel { name, asset_name, description, variants: seq![first, second, third], size_tenths_mb }
}

/// The catalog as a sequence of models.
pub open spec fn catalog_model() -> Seq<FontModel> {
    seq![
        font_model(
            "FiraCode Nerd Font"@,
            "FiraCode.zip"@,
            "Monospaced font with programming ligatures"@,
            "Regular"@,
            "Bold"@,
            "Light"@,
            21,
        ),
        font_model(
            "Hack Nerd Font"@,
            "Hack.zip"@,
            "A typeface designed for source code"@,
            "Regular"@,
            "Bold"@,
            "Italic"@,
            18,
        ),
        font_model(
            "JetBrainsMono Nerd Font"@,
            "JetBrainsMono.zip"@,
            "Typeface for developers by JetBrains"@,
            "Regular"@,
            "Bold"@,
            "Italic"@,
            23,
        ),
        font_model(
            "SourceCodePro Nerd Font"@,
            "SourceCodePro.zip"@,
            "Monospaced font family by Adobe"@,
            "Regular"@,
            "Bold"@,
            "Light"@,
            19,
        ),
        font_model(
            "DejaVuSansMono Nerd Font"@,
            "DejaVuSansMono.zip"@,
            "Monospaced version of DejaVu Sans"@,
            "Regular"@,
            "Bold"@,
            "Oblique"@,
            15,
        ),
        font_model(
            "CascadiaCode Nerd Font"@,
            "CascadiaCode.zip"@,
            "Microsoft's programming font with ligatures"@,
            "Regular"@,
            "SemiLight"@,
            "Light"@,
            20,
        ),
        font_model(
            "Meslo Nerd Font"@,
            "Meslo.zip"@,
            "Customized version of Apple's Menlo font"@,
            "Regular"@,
            "Bold"@,
            "Italic"@,
            17,
        ),
    ]
}

impl FontInfo {
    /// A copy that holds the same values.
    pub fn duplicate(&self) -> (copy: FontInfo)
        ensures
            copy@ == self@,
    {
        let mut variants: Vec<String> = Vec::new();
        let mut i: usize = 0;
        while i < self.variants.len()
            invariant
                i <= self.variants.len(),
                variants.len() == i,
                forall|k: int| 0 <= k < i ==> variants@[k]@ == self.variants@[k]@,
            decreases self.variants.len() - i,
        {
            variants.push(self.variants[i].clone());
            i += 1;
        }
        let copy = FontInfo {
            name: self.name.clone(),
            asset_name: self.asset_name.clone(),
            description: self.description.clone(),
            variants,
            size_tenths_mb: self.size_tenths_mb,
        };
        assert(copy@.variants =~= self@.variants);
        copy
    }

    /// The size in megabytes with one decimal, such as `2.1`.
    pub fn size_text(&self) -> (text: String)
        ensures
            text@ == size_text_of(self.size_tenths_mb),
    {
        let whole: usize = (self.size_tenths_mb / 10) as usize;
        let tenth: usize = (self.size_tenths_mb % 10) as usize;
        let mut text = decimal(whole);
        text.append(".");
        text.append(decimal(tenth).as_str());
        text
    }

    /// The variants in a row, with a comma and a space between every two.
    pub fn variants_text(&self) -> (text: String)
        ensures
            text@ == joined_with(self@.variants, ", "@),
    {
        let mut text = String::new();
        let mut i: usize = 0;
        assert(self@.variants.subrange(0, 0) =~= Seq::empty());
        while i < self.variants.len()
            invariant
                i <= self.variants.len(),
                text@ == joined_with(self@.variants.subrange(0, i as int), ", "@),
            decreases self.variants.len() - i,
        {
            proof {
                let next = self@.variants.subrange(0, i + 1);
                assert(next.drop_last() =~= self@.variants.subrange(0, i as int));
                assert(next.last() == self.variants@[i as int]@);
                if i == 0 {
                    assert(next[0] == self.variants@[0]@);
                    assert(Seq::<char>::empty() + self.variants@[0]@ =~= self.variants@[0]@);
                }
            }
            if i > 0 {
                text.append(", ");
            }
            text.append(self.variants[i].as_str());
            i += 1;
        }
        assert(self@.variants.subrange(0, i as int) =~= self@.variants);
        text
    }
}

fn font(
    name: &str,
    asset_name: &str,
    description: &str,
    first: &str,
    second: &str,
    third: &str,
    size_tenths_mb: u32,
) -> (entry: FontInfo)
    ensures
        entry@ == font_model(
            name@,
            asset_name@,
            description@,
            first@,
            second@,
            third@,
            size_tenths_mb,
        ),
{
    let mut variants: Vec<String> = Vec::new();
    variants.push(String::from_str(first));
    variants.push(String::from_str(second));
    variants.push(String::from_str(third));
    let entry = FontInfo {
        name: String::from_str(name),
        asset_name: String::from_str(asset_name),
        description: String::from_str(description),
        variants,
        size_tenths_mb,
    };
    assert(entry@.variants =~= seq![first@, second@, third@]);
    entry
}

/// The catalog: the same seven fonts, in the same order, on every call.
pub fn get_nerd_fonts() -> (fonts: Vec<FontInfo>)
    ensures
        models(fonts@) == catalog_model(),
{
    let mut fonts: Vec<FontInfo> = Vec::new();
    fonts.push(
        font(
            "FiraCode Nerd Font",
            "FiraCode.zip",
            "Monospaced font with programming ligatures",
            "Regular",
            "Bold",
            "Light",
            21,
        ),
    );
    fonts.push(
        font(
            "Hack Nerd Font",
            "Hack.zip",
            "A typeface designed for source code",
            "Regular",
            "Bold",
            "Italic",
            18,
        ),
    );
    fonts.push(
        font(
            "JetBrainsMono Nerd Font",
            "JetBrainsMono.zip",
            "Typeface for developers by JetBrains",
            "Regular",
            "Bold",
            "Italic",
            23,
        ),
    );
    fonts.push(
        font(
            "SourceCodePro Nerd Font",
            "SourceCodePro.zip",
            "Monospaced font family by Adobe",
            "Regular",
            "Bold",
            "Light",
            19,
        ),
    );
    fonts.push(
        font(
            "DejaVuSansMono Nerd Font",
            "DejaVuSansMono.zip",
            "Monospaced version of DejaVu Sans",
            "Regular",
            "Bold",
            "Oblique",
            15,
        ),
    );
    fonts.push(
        font(
            "CascadiaCode Nerd Font",
            "CascadiaCode.zip",
            "Microsoft's programming font with ligatures",
            "Regular",
            "SemiLight",
            "Light",
            20,
        ),
    );
    fonts.push(
        font(
            "Meslo Nerd Font",
            "Meslo.zip",
            "Customized version of Apple's Menlo font",
            "Regular",
            "Bold",
            "Italic",
            17,
        ),
    );
    assert(models(fonts@) =~= catalog_model());
    fonts
}

/// Every catalog entry has a name that is not empty and that no other entry
/// has, and an archive name that ends in `.zip`.
pub proof fn lemma_catalog_names()
    ensures
        catalog_model().len() == 7,
        forall|i: int|
            0 <= i < catalog_model().len() ==> (#[trigger] catalog_model()[i]).name.len() > 0,
        forall|i: int|
            0 <= i < catalog_model().len() ==> ends_with(
                (#[trigger] catalog_model()[i]).asset_name,
                ".zip"@,
            ),
        forall|i: int, j: int|
            0 <= i < catalog_model().len() && 0 <= j < catalog_model().len() && i != j
                ==> (#[trigger] catalog_model()[i]).name != (#[trigger] catalog_model()[j]).name,
{
    reveal_strlit(".zip");
    reveal_strlit("FiraCode Nerd Font");
    reveal_strlit("Hack Nerd Font");
    reveal_strlit("JetBrainsMono Nerd Font");
    reveal_strlit("SourceCodePro Nerd Font");
    reveal_strlit("DejaVuSansMono Nerd Font");
    reveal_strlit("CascadiaCode Nerd Font");
    reveal_strlit("Meslo Nerd Font");
    reveal_strlit("FiraCode.zip");
    reveal_strlit("Hack.zip");
    reveal_strlit("JetBrainsMono.zip");
    reveal_strlit("SourceCodePro.zip");
    reveal_strlit("DejaVuSansMono.zip");
    reveal_strlit("CascadiaCode.zip");
    reveal_strlit("Meslo.zip");
    let c = catalog_model();
    assert(ends_with(c[0].asset_name, ".zip"@)) by {
        assert(c[0].asset_name.subrange(8, 12) =~= ".zip"@);
    }
    assert(ends_with(c[1].asset_name, ".zip"@)) by {
        assert(c[1].asset_name.subrange(4, 8) =~= ".zip"@);
    }
    assert(ends_with(c[2].asset_name, ".zip"@)) by {
        assert(c[2].asset_name.subrange(13, 17) =~= ".zip"@);
    }
    assert(ends_with(c[3].asset_name, ".zip"@)) by {
        assert(c[3].asset_name.subrange(13, 17) =~= ".zip"@);
    }
    assert(ends_with(c[4].asset_name, ".zip"@)) by {
        assert(c[4].asset_name.subrange(14, 18) =~= ".zip"@);
    }
    assert(ends_with(c[5].asset_name, ".zip"@)) by {
        assert(c[5].asset_name.subrange(12, 16) =~= ".zip"@);
    }
    assert(ends_with(c[6].asset_name, ".zip"@)) by {
        assert(c[6].asset_name.subrange(5, 9) =~= ".zip"@);
    }
    assert(c[0].name[0] == 'F');
    assert(c[1].name[0] == 'H');
    assert(c[2].name[0] == 'J');
    assert(c[3].name[0] == 'S');
    assert(c[4].name[0] == 'D');
    assert(c[5].name[0] == 'C');
    assert(c[6].name[0] == 'M');
}

} // verus!
