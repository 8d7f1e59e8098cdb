//! Design tokens: the colour palette, font-size ladder and spacing
//! conventions every component builder reads from.

use vstd::prelude::*;
use crate::text::{owned, str_eq};

verus! {

/// Master palette. Hex strings without a leading `#`.
pub struct Palette {
    pub primary: String,
    pub secondary: String,
    pub accent: String,
    pub zebra: String,
    pub callout_info_bg: String,
    pub callout_warning_bg: String,
    pub callout_important_bg: String,
    pub callout_tip_bg: String,
    pub code_bg: String,
    pub text: String,
    pub text_muted: String,
    pub text_on_primary: String,
}

/// The default brand palette, as the design document fixes it.
pub open spec fn is_default_palette(p: Palette) -> bool {
    &&& p.primary@ == "213B32"@
    &&& p.secondary@ == "2E7D5B"@
    &&& p.accent@ == "B8893E"@
    &&& p.zebra@ == "EAF0EC"@
    &&& p.callout_info_bg@ == "E8F1ED"@
    &&& p.callout_warning_bg@ == "FBF1DC"@
    &&& p.callout_important_bg@ == "F8E2DD"@
    &&& p.callout_tip_bg@ == "E5F1EE"@
    &&& p.code_bg@ == "F4F1EC"@
    &&& p.text@ == "2A2A2A"@
    &&& p.text_muted@ == "6E6E6E"@
    &&& p.text_on_primary@ == "FFFFFF"@
}

/// The default inkuo palette.
pub fn default_palette() -> (p: Palette)
    ensures
        is_default_palette(p),
{
    Palette {
        primary: owned("213B32"),
        secondary: owned("2E7D5B"),
        accent: owned("B8893E"),
        zebra: owned("EAF0EC"),
        callout_info_bg: owned("E8F1ED"),
        callout_warning_bg: owned("FBF1DC"),
        callout_important_bg: owned("F8E2DD"),
        callout_tip_bg: owned("E5F1EE"),
        code_bg: owned("F4F1EC"),
        text: owned("2A2A2A"),
        text_muted: owned("6E6E6E"),
        text_on_primary: owned("FFFFFF"),
    }
}

impl Clone for Palette {
    fn clone(&self) -> (r: Self)
        ensures
            r == *self,
    {
        Palette {
            primary: self.primary.clone(),
            secondary: self.secondary.clone(),
            accent: self.accent.clone(),
            zebra: self.zebra.clone(),
            callout_info_bg: self.callout_info_bg.clone(),
            callout_warning_bg: self.callout_warning_bg.clone(),
            callout_important_bg: self.callout_important_bg.clone(),
            callout_tip_bg: self.callout_tip_bg.clone(),
            code_bg: self.code_bg.clone(),
            text: self.text.clone(),
            text_muted: self.text_muted.clone(),
            text_on_primary: self.text_on_primary.clone(),
        }
    }
}

/// Font sizes in half-points.
#[derive(Clone, Copy)]
pub struct FontScale {
    pub cover_title_pt: u32,
    pub h1_pt: u32,
    pub h2_pt: u32,
    pub h3_pt: u32,
    pub body_pt: u32,
    pub body_strong_pt: u32,
    pub caption_pt: u32,
    pub header_footer_pt: u32,
    pub table_body_pt: u32,
    pub table_header_pt: u32,
}

impl Default for FontScale {
    fn default() -> (r: Self)
        ensures
            r.cover_title_pt == 68 && r.h1_pt == 40 && r.h2_pt == 28 && r.h3_pt == 23
                && r.body_pt == 20 && r.body_strong_pt == 22 && r.caption_pt == 18
                && r.header_footer_pt == 16 && r.table_body_pt == 17 && r.table_header_pt == 17,
    {
        FontScale {
            cover_title_pt: 68,
            h1_pt: 40,
            h2_pt: 28,
            h3_pt: 23,
            body_pt: 20,
            body_strong_pt: 22,
            caption_pt: 18,
            header_footer_pt: 16,
            table_body_pt: 17,
            table_header_pt: 17,
        }
    }
}

/// Spacing conventions in twips (line spacing in 240ths of a line).
#[derive(Clone, Copy)]
pub struct Spacing {
    pub body_line: u32,
    pub heading_line: u32,
    pub h1_before: u32,
    pub h2_before: u32,
    pub h3_before: u32,
    pub h1_after: u32,
    pub h2_after: u32,
    pub h3_after: u32,
    pub body_after: u32,
    pub cell_pad_v: u32,
    pub cell_pad_h: u32,
    pub callout_pad: u32,
    pub code_pad: u32,
}

impl Default for Spacing {
    fn default() -> (r: Self)
        ensures
            r.body_line == 293 && r.heading_line == 300 && r.h1_before == 480 && r.h2_before == 360
                && r.h3_before == 240 && r.h1_after == 120 && r.h2_after == 80 && r.h3_after == 60
                && r.body_after == 120 && r.cell_pad_v == 80 && r.cell_pad_h == 108
                && r.callout_pad == 200 && r.code_pad == 240,
    {
        Spacing {
            body_line: 293,
            heading_line: 300,
            h1_before: 480,
            h2_before: 360,
            h3_before: 240,
            h1_after: 120,
            h2_after: 80,
            h3_after: 60,
            body_after: 120,
            cell_pad_v: 80,
            cell_pad_h: 108,
            callout_pad: 200,
            code_pad: 240,
        }
    }
}

/// Palette, font ladder and spacing, passed to every component.
pub struct DesignTokens {
    pub palette: Palette,
    pub fonts: FontScale,
    pub spacing: Spacing,
}

/// The default tokens: default palette, font ladder and spacing.
pub open spec fn is_default_tokens(t: DesignTokens) -> bool {
    &&& is_default_palette(t.palette)
    &&& t.fonts == FontScale {
        cover_title_pt: 68,
        h1_pt: 40,
        h2_pt: 28,
        h3_pt: 23,
        body_pt: 20,
        body_strong_pt: 22,
        caption_pt: 18,
        header_footer_pt: 16,
        table_body_pt: 17,
        table_header_pt: 17,
    }
    &&& t.spacing == Spacing {
        body_line: 293,
        heading_line: 300,
        h1_before: 480,
        h2_before: 360,
        h3_before: 240,
        h1_after: 120,
        h2_after: 80,
        h3_after: 60,
        body_after: 120,
        cell_pad_v: 80,
        cell_pad_h: 108,
        callout_pad: 200,
        code_pad: 240,
    }
}

impl Default for DesignTokens {
    fn default() -> (r: Self)
        ensures
            is_default_tokens(r),
    {
        DesignTokens { palette: default_palette(), fonts: FontScale::default(), spacing: Spacing::default() }
    }
}

impl Clone for DesignTokens {
    fn clone(&self) -> (r: Self)
        ensures
            r == *self,
    {
        DesignTokens { palette: self.palette.clone(), fonts: self.fonts, spacing: self.spacing }
    }
}

/// The half-point size of the named slot, if the slot exists.
pub open spec fn spec_font_size_hp(f: FontScale, slot: Seq<char>) -> Option<int> {
    if slot == "cover_title"@ {
        Some(f.cover_title_pt as int)
    } else if slot == "h1"@ {
        Some(f.h1_pt as int)
    } else if slot == "h2"@ {
        Some(f.h2_pt as int)
    } else if slot == "h3"@ {
        Some(f.h3_pt as int)
    } else if slot == "body"@ {
        Some(f.body_pt as int)
    } else if slot == "body_strong"@ {
        Some(f.body_strong_pt as int)
    } else if slot == "caption"@ {
        Some(f.caption_pt as int)
    } else if slot == "header_footer"@ {
        Some(f.header_footer_pt as int)
    } else if slot == "table_body"@ {
        Some(f.table_body_pt as int)
    } else if slot == "table_header"@ {
        Some(f.table_header_pt as int)
    } else {
        None
    }
}

impl DesignTokens {
    /// Resolves a named semantic slot (`h1`, `body`, ...) to a half-point size.
    pub fn font_size_hp(&self, slot: &str) -> (r: Option<u32>)
        ensures
            match spec_font_size_hp(self.fonts, slot@) {
                Some(n) => r == Some(n as u32),
                None => r is None,
            },
    {
        if str_eq(slot, "cover_title") {
            Some(self.fonts.cover_title_pt)
        } else if str_eq(slot, "h1") {
            Some(self.fonts.h1_pt)
        } else if str_eq(slot, "h2") {
            Some(self.fonts.h2_pt)
        } else if str_eq(slot, "h3") {
            Some(self.fonts.h3_pt)
        } else if str_eq(slot, "body") {
            Some(self.fonts.body_pt)
        } else if str_eq(slot, "body_strong") {
            Some(self.fonts.body_strong_pt)
        } else if str_eq(slot, "caption") {
            Some(self.fonts.caption_pt)
        } else if str_eq(slot, "header_footer") {
            Some(self.fonts.header_footer_pt)
        } else if str_eq(slot, "table_body") {
            Some(self.fonts.table_body_pt)
        } else if str_eq(slot, "table_header") {
            Some(self.fonts.table_header_pt)
        } else {
            None
        }
    }
}

} // verus!
