//! The `word/styles.xml` payload with the brand styles the components use.

use vstd::prelude::*;

verus! {

/// `word/styles.xml` defining `Normal`, the brand paragraph styles
/// (cover, chapter / section / subsection titles, body, list bullet and
/// number linked to list instances 1 and 2, callout, code block), table
/// and header / footer styles.
pub const EXTENDED_STYLES_XML: &'static str = "<?xml version=\"1.0\" encoding=\"UTF-8\" standalone=\"yes\"?>\n<w:styles xmlns:w=\"http://schemas.openxmlformats.org/wordprocessingml/2006/main\">\n  <w:docDefaults>\n    <w:rPrDefault>\n      <w:rPr>\n        <w:rFonts w:ascii=\"Calibri\" w:hAnsi=\"Calibri\" w:cs=\"Times New Roman\"/>\n        <w:sz w:val=\"22\"/>\n        <w:szCs w:val=\"22\"/>\n      </w:rPr>\n    </w:rPrDefault>\n  </w:docDefaults>\n\n  <w:style w:type=\"paragraph\" w:default=\"1\" w:styleId=\"Normal\">\n    <w:name w:val=\"Normal\"/>\n    <w:pPr>\n      <w:spacing w:after=\"120\" w:line=\"293\" w:lineRule=\"auto\"/>\n    </w:pPr>\n    <w:rPr>\n      <w:rFonts w:ascii=\"Calibri\" w:hAnsi=\"Calibri\"/>\n      <w:sz w:val=\"20\"/>\n    </w:rPr>\n  </w:style>\n\n  <w:style w:type=\"character\" w:default=\"1\" w:styleId=\"DefaultParagraphFont\">\n    <w:name w:val=\"Default Paragraph Font\"/>\n    <w:uiPriority w:val=\"1\"/>\n    <w:semiHidden/>\n    <w:unhideWhenUsed/>\n  </w:style>\n\n  <w:style w:type=\"paragraph\" w:styleId=\"Title\">\n    <w:name w:val=\"Title\"/>\n    <w:basedOn w:val=\"Normal\"/>\n    <w:pPr>\n      <w:jc w:val=\"center\"/>\n      <w:spacing w:after=\"0\" w:before=\"240\"/>\n    </w:pPr>\n    <w:rPr>\n      <w:rFonts w:ascii=\"Calibri\" w:hAnsi=\"Calibri\"/>\n      <w:b/>\n      <w:sz w:val=\"56\"/>\n      <w:szCs w:val=\"56\"/>\n      <w:color w:val=\"1F3864\"/>\n    </w:rPr>\n  </w:style>\n\n  <!-- ─── Brand heading ladder ─────────────────────────────────────────── -->\n  <w:style w:type=\"paragraph\" w:styleId=\"CoverTitle\">\n    <w:name w:val=\"Cover Title\"/>\n    <w:basedOn w:val=\"Normal\"/>\n    <w:pPr>\n      <w:jc w:val=\"center\"/>\n      <w:spacing w:before=\"2400\" w:after=\"240\" w:line=\"300\" w:lineRule=\"auto\"/>\n    </w:pPr>\n    <w:rPr>\n      <w:rFonts w:ascii=\"Calibri\" w:hAnsi=\"Calibri\"/>\n      <w:b/>\n      <w:sz w:val=\"68\"/>\n      <w:szCs w:val=\"68\"/>\n      <w:color w:val=\"213B32\"/>\n    </w:rPr>\n  </w:style>\n\n  <w:style w:type=\"paragraph\" w:styleId=\"CoverSubtitle\">\n    <w:name w:val=\"Cover Subtitle\"/>\n    <w:basedOn w:val=\"Normal\"/>\n    <w:pPr>\n      <w:jc w:val=\"center\"/>\n      <w:spacing w:before=\"120\" w:after=\"600\"/>\n      <w:line w:lineRule=\"auto\" w:line=\"300\"/>\n    </w:pPr>\n    <w:rPr>\n      <w:rFonts w:ascii=\"Calibri\" w:hAnsi=\"Calibri\"/>\n      <w:i/>\n      <w:sz w:val=\"28\"/>\n      <w:szCs w:val=\"28\"/>\n      <w:color w:val=\"6E6E6E\"/>\n    </w:rPr>\n  </w:style>\n\n  <w:style w:type=\"paragraph\" w:styleId=\"ChapterTitle\">\n    <w:name w:val=\"Chapter Title\"/>\n    <w:basedOn w:val=\"Normal\"/>\n    <w:next w:val=\"BodyParagraph\"/>\n    <w:pPr>\n      <w:keepNext/>\n      <w:keepLines/>\n      <w:spacing w:before=\"480\" w:after=\"240\" w:line=\"300\" w:lineRule=\"auto\"/>\n      <w:outlineLvl w:val=\"0\"/>\n    </w:pPr>\n    <w:rPr>\n      <w:rFonts w:ascii=\"Calibri\" w:hAnsi=\"Calibri\"/>\n      <w:b/>\n      <w:sz w:val=\"40\"/>\n      <w:szCs w:val=\"40\"/>\n      <w:color w:val=\"213B32\"/>\n    </w:rPr>\n  </w:style>\n\n  <w:style w:type=\"paragraph\" w:styleId=\"SectionTitle\">\n    <w:name w:val=\"Section Title\"/>\n    <w:basedOn w:val=\"Normal\"/>\n    <w:next w:val=\"BodyParagraph\"/>\n    <w:pPr>\n      <w:keepNext/>\n      <w:keepLines/>\n      <w:spacing w:before=\"360\" w:after=\"120\" w:line=\"293\" w:lineRule=\"auto\"/>\n      <w:outlineLvl w:val=\"1\"/>\n    </w:pPr>\n    <w:rPr>\n      <w:rFonts w:ascii=\"Calibri\" w:hAnsi=\"Calibri\"/>\n      <w:b/>\n      <w:sz w:val=\"28\"/>\n      <w:szCs w:val=\"28\"/>\n      <w:color w:val=\"2E7D5B\"/>\n    </w:rPr>\n  </w:style>\n\n  <w:style w:type=\"paragraph\" w:styleId=\"SubsectionTitle\">\n    <w:name w:val=\"Subsection Title\"/>\n    <w:basedOn w:val=\"Normal\"/>\n    <w:next w:val=\"BodyParagraph\"/>\n    <w:pPr>\n      <w:keepNext/>\n      <w:keepLines/>\n      <w:spacing w:before=\"240\" w:after=\"80\" w:line=\"293\" w:lineRule=\"auto\"/>\n      <w:outlineLvl w:val=\"2\"/>\n    </w:pPr>\n    <w:rPr>\n      <w:rFonts w:ascii=\"Calibri\" w:hAnsi=\"Calibri\"/>\n      <w:b/>\n      <w:sz w:val=\"23\"/>\n      <w:szCs w:val=\"23\"/>\n      <w:color w:val=\"2E7D5B\"/>\n    </w:rPr>\n  </w:style>\n\n  <w:style w:type=\"paragraph\" w:styleId=\"Heading1\">\n    <w:name w:val=\"Heading 1\"/>\n    <w:basedOn w:val=\"ChapterTitle\"/>\n    <w:next w:val=\"BodyParagraph\"/>\n    <w:pPr>\n      <w:keepNext/>\n      <w:keepLines/>\n      <w:spacing w:before=\"480\" w:after=\"120\"/>\n      <w:outlineLvl w:val=\"0\"/>\n    </w:pPr>\n    <w:rPr>\n      <w:rFonts w:ascii=\"Calibri\" w:hAnsi=\"Calibri\"/>\n      <w:b/>\n      <w:sz w:val=\"32\"/>\n      <w:szCs w:val=\"32\"/>\n      <w:color w:val=\"2E74B5\"/>\n    </w:rPr>\n  </w:style>\n\n  <w:style w:type=\"paragraph\" w:styleId=\"Heading2\">\n    <w:name w:val=\"Heading 2\"/>\n    <w:basedOn w:val=\"SectionTitle\"/>\n    <w:next w:val=\"BodyParagraph\"/>\n    <w:pPr>\n      <w:keepNext/>\n      <w:keepLines/>\n      <w:spacing w:before=\"360\" w:after=\"80\"/>\n      <w:outlineLvl w:val=\"1\"/>\n    </w:pPr>\n    <w:rPr>\n      <w:rFonts w:ascii=\"Calibri\" w:hAnsi=\"Calibri\"/>\n      <w:b/>\n      <w:sz w:val=\"26\"/>\n      <w:szCs w:val=\"26\"/>\n      <w:color w:val=\"2F5496\"/>\n    </w:rPr>\n  </w:style>\n\n  <w:style w:type=\"paragraph\" w:styleId=\"Heading3\">\n    <w:name w:val=\"Heading 3\"/>\n    <w:basedOn w:val=\"SubsectionTitle\"/>\n    <w:next w:val=\"BodyParagraph\"/>\n    <w:pPr>\n      <w:keepNext/>\n      <w:keepLines/>\n      <w:spacing w:before=\"240\" w:after=\"60\"/>\n      <w:outlineLvl w:val=\"2\"/>\n    </w:pPr>\n    <w:rPr>\n      <w:rFonts w:ascii=\"Calibri\" w:hAnsi=\"Calibri\"/>\n      <w:b/>\n      <w:sz w:val=\"24\"/>\n      <w:szCs w:val=\"24\"/>\n      <w:color w:val=\"1F497D\"/>\n    </w:rPr>\n  </w:style>\n\n  <!-- ─── Body / list ─────────────────────────────────────────────────── -->\n  <w:style w:type=\"paragraph\" w:styleId=\"BodyParagraph\">\n    <w:name w:val=\"Body Paragraph\"/>\n    <w:basedOn w:val=\"Normal\"/>\n    <w:pPr>\n      <w:spacing w:after=\"120\" w:line=\"293\" w:lineRule=\"auto\"/>\n      <w:jc w:val=\"both\"/>\n    </w:pPr>\n    <w:rPr>\n      <w:rFonts w:ascii=\"Calibri\" w:hAnsi=\"Calibri\"/>\n      <w:sz w:val=\"20\"/>\n      <w:szCs w:val=\"20\"/>\n      <w:color w:val=\"2A2A2A\"/>\n    </w:rPr>\n  </w:style>\n\n  <w:style w:type=\"paragraph\" w:styleId=\"ListBullet\">\n    <w:name w:val=\"List Bullet\"/>\n    <w:basedOn w:val=\"BodyParagraph\"/>\n    <w:pPr>\n      <w:numPr><w:numId w:val=\"1\"/></w:numPr>\n      <w:spacing w:after=\"80\" w:line=\"293\" w:lineRule=\"auto\"/>\n      <w:contextualSpacing/>\n    </w:pPr>\n  </w:style>\n\n  <w:style w:type=\"paragraph\" w:styleId=\"ListNumber\">\n    <w:name w:val=\"List Number\"/>\n    <w:basedOn w:val=\"BodyParagraph\"/>\n    <w:pPr>\n      <w:numPr><w:numId w:val=\"2\"/></w:numPr>\n      <w:spacing w:after=\"80\" w:line=\"293\" w:lineRule=\"auto\"/>\n      <w:contextualSpacing/>\n    </w:pPr>\n  </w:style>\n\n  <!-- ─── Callout ─────────────────────────────────────────────────────── -->\n  <w:style w:type=\"paragraph\" w:styleId=\"CalloutBody\">\n    <w:name w:val=\"Callout Body\"/>\n    <w:basedOn w:val=\"Normal\"/>\n    <w:pPr>\n      <w:spacing w:before=\"0\" w:after=\"60\" w:line=\"293\" w:lineRule=\"auto\"/>\n    </w:pPr>\n    <w:rPr>\n      <w:rFonts w:ascii=\"Calibri\" w:hAnsi=\"Calibri\"/>\n      <w:sz w:val=\"20\"/>\n      <w:szCs w:val=\"20\"/>\n      <w:color w:val=\"2A2A2A\"/>\n    </w:rPr>\n  </w:style>\n\n  <!-- ─── Code block ──────────────────────────────────────────────────── -->\n  <w:style w:type=\"paragraph\" w:styleId=\"CodeBlock\">\n    <w:name w:val=\"Code Block\"/>\n    <w:basedOn w:val=\"Normal\"/>\n    <w:pPr>\n      <w:spacing w:before=\"0\" w:after=\"0\" w:line=\"252\" w:lineRule=\"auto\"/>\n      <w:shd w:val=\"clear\" w:color=\"auto\" w:fill=\"F4F1EC\"/>\n    </w:pPr>\n    <w:rPr>\n      <w:rFonts w:ascii=\"Consolas\" w:hAnsi=\"Consolas\" w:cs=\"Consolas\"/>\n      <w:sz w:val=\"18\"/>\n      <w:szCs w:val=\"18\"/>\n      <w:color w:val=\"2A2A2A\"/>\n    </w:rPr>\n  </w:style>\n\n  <!-- ─── Tables ──────────────────────────────────────────────────────── -->\n  <w:style w:type=\"table\" w:default=\"1\" w:styleId=\"TableNormal\">\n    <w:name w:val=\"Normal Table\"/>\n    <w:uiPriority w:val=\"99\"/>\n    <w:semiHidden/>\n    <w:unhideWhenUsed/>\n    <w:tblPr>\n      <w:tblInd w:w=\"0\" w:type=\"dxa\"/>\n      <w:tblCellMar>\n        <w:top w:w=\"80\" w:type=\"dxa\"/>\n        <w:left w:w=\"108\" w:type=\"dxa\"/>\n        <w:bottom w:w=\"80\" w:type=\"dxa\"/>\n        <w:right w:w=\"108\" w:type=\"dxa\"/>\n      </w:tblCellMar>\n    </w:tblPr>\n  </w:style>\n\n  <w:style w:type=\"table\" w:styleId=\"TableGrid\">\n    <w:name w:val=\"Table Grid\"/>\n    <w:basedOn w:val=\"TableNormal\"/>\n    <w:tblPr>\n      <w:tblBorders>\n        <w:top w:val=\"single\" w:sz=\"4\" w:space=\"0\" w:color=\"DDDDDD\"/>\n        <w:left w:val=\"single\" w:sz=\"4\" w:space=\"0\" w:color=\"DDDDDD\"/>\n        <w:bottom w:val=\"single\" w:sz=\"4\" w:space=\"0\" w:color=\"DDDDDD\"/>\n        <w:right w:val=\"single\" w:sz=\"4\" w:space=\"0\" w:color=\"DDDDDD\"/>\n        <w:insideH w:val=\"single\" w:sz=\"4\" w:space=\"0\" w:color=\"DDDDDD\"/>\n        <w:insideV w:val=\"single\" w:sz=\"4\" w:space=\"0\" w:color=\"DDDDDD\"/>\n      </w:tblBorders>\n      <w:tblCellMar>\n        <w:top w:w=\"80\" w:type=\"dxa\"/>\n        <w:left w:w=\"108\" w:type=\"dxa\"/>\n        <w:bottom w:w=\"80\" w:type=\"dxa\"/>\n        <w:right w:w=\"108\" w:type=\"dxa\"/>\n      </w:tblCellMar>\n    </w:tblPr>\n    <w:rPr>\n      <w:sz w:val=\"18\"/>\n    </w:rPr>\n  </w:style>\n\n  <w:style w:type=\"table\" w:styleId=\"BrandTable\">\n    <w:name w:val=\"Brand Table\"/>\n    <w:basedOn w:val=\"TableGrid\"/>\n    <w:tblPr>\n      <w:tblStyleRowBandSize w:val=\"1\"/>\n      <w:tblBorders>\n        <w:top w:val=\"single\" w:sz=\"4\" w:space=\"0\" w:color=\"DDDDDD\"/>\n        <w:left w:val=\"single\" w:sz=\"4\" w:space=\"0\" w:color=\"DDDDDD\"/>\n        <w:bottom w:val=\"single\" w:sz=\"4\" w:space=\"0\" w:color=\"DDDDDD\"/>\n        <w:right w:val=\"single\" w:sz=\"4\" w:space=\"0\" w:color=\"DDDDDD\"/>\n        <w:insideH w:val=\"single\" w:sz=\"4\" w:space=\"0\" w:color=\"DDDDDD\"/>\n        <w:insideV w:val=\"single\" w:sz=\"4\" w:space=\"0\" w:color=\"DDDDDD\"/>\n      </w:tblBorders>\n      <w:tblCellMar>\n        <w:top w:w=\"100\" w:type=\"dxa\"/>\n        <w:left w:w=\"140\" w:type=\"dxa\"/>\n        <w:bottom w:w=\"100\" w:type=\"dxa\"/>\n        <w:right w:w=\"140\" w:type=\"dxa\"/>\n      </w:tblCellMar>\n    </w:tblPr>\n  </w:style>\n\n  <!-- ─── Header / Footer ────────────────────────────────────────────── -->\n  <w:style w:type=\"paragraph\" w:styleId=\"Header\">\n    <w:name w:val=\"header\"/>\n    <w:basedOn w:val=\"Normal\"/>\n    <w:link w:val=\"HeaderChar\"/>\n    <w:pPr>\n      <w:tabs>\n        <w:tab w:val=\"center\" w:pos=\"4680\"/>\n        <w:tab w:val=\"right\" w:pos=\"9360\"/>\n      </w:tabs>\n      <w:spacing w:after=\"0\" w:line=\"240\" w:lineRule=\"auto\"/>\n    </w:pPr>\n    <w:rPr>\n      <w:rFonts w:ascii=\"Calibri\" w:hAnsi=\"Calibri\"/>\n      <w:sz w:val=\"18\"/>\n    </w:rPr>\n  </w:style>\n\n  <w:style w:type=\"character\" w:styleId=\"HeaderChar\" w:customStyle=\"1\">\n    <w:name w:val=\"Header Char\"/>\n    <w:basedOn w:val=\"DefaultParagraphFont\"/>\n    <w:link w:val=\"Header\"/>\n    <w:rPr>\n      <w:rFonts w:ascii=\"Calibri\" w:hAnsi=\"Calibri\"/>\n      <w:sz w:val=\"18\"/>\n    </w:rPr>\n  </w:style>\n\n  <w:style w:type=\"paragraph\" w:styleId=\"Footer\">\n    <w:name w:val=\"footer\"/>\n    <w:basedOn w:val=\"Normal\"/>\n    <w:link w:val=\"FooterChar\"/>\n    <w:pPr>\n      <w:tabs>\n        <w:tab w:val=\"center\" w:pos=\"4680\"/>\n        <w:tab w:val=\"right\" w:pos=\"9360\"/>\n      </w:tabs>\n      <w:spacing w:after=\"0\" w:line=\"240\" w:lineRule=\"auto\"/>\n    </w:pPr>\n    <w:rPr>\n      <w:rFonts w:ascii=\"Calibri\" w:hAnsi=\"Calibri\"/>\n      <w:sz w:val=\"18\"/>\n    </w:rPr>\n  </w:style>\n\n  <w:style w:type=\"character\" w:styleId=\"FooterChar\" w:customStyle=\"1\">\n    <w:name w:val=\"Footer Char\"/>\n    <w:basedOn w:val=\"DefaultParagraphFont\"/>\n    <w:link w:val=\"Footer\"/>\n    <w:rPr>\n      <w:rFonts w:ascii=\"Calibri\" w:hAnsi=\"Calibri\"/>\n      <w:sz w:val=\"18\"/>\n    </w:rPr>\n  </w:style>\n\n  <w:style w:type=\"character\" w:styleId=\"PageNumber\">\n    <w:name w:val=\"page number\"/>\n    <w:basedOn w:val=\"DefaultParagraphFont\"/>\n    <w:rPr/>\n  </w:style>\n\n  <w:style w:type=\"character\" w:styleId=\"TotalPages\">\n    <w:name w:val=\"total pages\"/>\n    <w:basedOn w:val=\"DefaultParagraphFont\"/>\n    <w:rPr/>\n  </w:style>\n</w:styles>";

} // verus!
