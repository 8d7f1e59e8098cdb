//! The Word document model: paragraphs, runs, tables, images, sections,
//! header / footer parts, and the flat element view used for editing.

use vstd::prelude::*;

verus! {

/// Word field code rendered in place of a run's text.
pub enum FieldRef {
    /// `PAGE` — current page number.
    Page,
    /// `NUMPAGES` — total page count.
    NumPages,
    /// `SECTIONPAGES` — page count of the current section.
    SectionPages,
    /// `SECTION` — current section number.
    Section,
    /// `DATE` with an optional `\@` format.
    Date { format: Option<String> },
    /// `TIME` with an optional `\@` format.
    Time { format: Option<String> },
    /// `AUTHOR` — document author.
    Author,
    /// `TITLE` — document title.
    Title,
    /// `FILENAME`; `with_ext == false` renders the `\p` switch.
    Filename { with_ext: bool },
    /// Any other field expression, inserted verbatim.
    Custom { instr: String },
}

/// Inline text formatting of one run.
pub struct FontRun {
    pub text: String,
    pub bold: bool,
    pub italic: bool,
    pub underline: bool,
    pub strikethrough: bool,
    /// Half-points, e.g. 24 = 12 pt.
    pub font_size: Option<u32>,
    /// Hex RGB without `#`.
    pub color: Option<String>,
    pub font_name: Option<String>,
    pub highlight: Option<String>,
    /// `superscript` / `subscript` / empty.
    pub vert_align: Option<String>,
    /// Field code emitted instead of plain text.
    pub field: Option<FieldRef>,
    /// The run is a hard page break.
    pub page_break: bool,
    /// The run is a column break.
    pub column_break: bool,
}

/// List membership of a paragraph: list instance `num_id`, indent `level`.
pub struct NumberingRef {
    pub num_id: u32,
    pub level: u32,
}

/// A paragraph: plain `text`, or formatted `runs` when present.
pub struct WordParagraph {
    pub id: String,
    pub text: String,
    pub style: Option<String>,
    pub runs: Option<Vec<FontRun>>,
    pub numbering: Option<NumberingRef>,
    pub alignment: Option<String>,
    pub text_direction: Option<String>,
    pub page_break: Option<bool>,
}

/// One table cell with its merge extent.
pub struct TableCell {
    pub text: String,
    pub col_span: usize,
    pub row_span: usize,
}

/// One table row.
pub struct TableRow {
    pub cells: Vec<TableCell>,
}

/// A table; `cell_paragraphs` carries the inner paragraphs of a callout
/// or code-block container table.
pub struct WordTable {
    pub id: String,
    pub rows: Vec<TableRow>,
    pub cell_paragraphs: Vec<WordParagraph>,
}

/// An inline picture. Sizes in EMU.
pub struct WordImage {
    pub id: String,
    pub path: String,
    pub width_emu: u32,
    pub height_emu: u32,
    /// `word/media/...` entry the image was read from, if any.
    pub internal_path: Option<String>,
}

/// `<w:pgSz>` in twips.
pub struct PageSize {
    pub width: u32,
    pub height: u32,
    pub orient: Option<String>,
}

/// `<w:pgMar>` in twips.
pub struct PageMargins {
    pub top: u32,
    pub right: u32,
    pub bottom: u32,
    pub left: u32,
    pub header: Option<u32>,
    pub footer: Option<u32>,
    pub gutter: Option<u32>,
}

/// Reference from a section to a header part.
pub struct HeaderPartRef {
    pub header_id: String,
    pub kind: Option<String>,
}

/// Reference from a section to a footer part.
pub struct FooterPartRef {
    pub footer_id: String,
    pub kind: Option<String>,
}

/// A header part (`word/headerN.xml`).
pub struct HeaderPart {
    pub id: String,
    pub paragraphs: Vec<WordParagraph>,
    pub tables: Vec<WordTable>,
    pub images: Vec<WordImage>,
}

/// A footer part (`word/footerN.xml`).
pub struct FooterPart {
    pub id: String,
    pub paragraphs: Vec<WordParagraph>,
    pub tables: Vec<WordTable>,
    pub images: Vec<WordImage>,
}

/// One document section (`<w:sectPr>`).
pub struct WordSection {
    pub id: String,
    pub section_type: Option<String>,
    pub page_size_twips: Option<PageSize>,
    pub margins: Option<PageMargins>,
    pub text_direction: Option<String>,
    pub title_pg: bool,
    pub cols: Option<u32>,
    pub page_num_start: Option<u32>,
    pub page_num_format: Option<String>,
    pub header_refs: Vec<HeaderPartRef>,
    pub footer_refs: Vec<FooterPartRef>,
}

/// A whole Word document.
pub struct WordDocument {
    pub paragraphs: Vec<WordParagraph>,
    pub tables: Vec<WordTable>,
    pub images: Vec<WordImage>,
    pub sections: Vec<WordSection>,
    pub headers: Vec<HeaderPart>,
    pub footers: Vec<FooterPart>,
}

/// One element of the flat, editable view of a document.
pub enum DocElement {
    Paragraph {
        id: String,
        text: String,
        /// The caller gave no `text`: keep the original text on modify.
        omit_text: bool,
        style: Option<String>,
        runs: Option<Vec<FontRun>>,
        numbering: Option<NumberingRef>,
        alignment: Option<String>,
        text_direction: Option<String>,
    },
    Table {
        id: String,
        position: usize,
        header: Vec<TableCell>,
        rows: Vec<Vec<TableCell>>,
    },
    Image {
        id: String,
        position: usize,
        path: String,
        width_emu: u32,
        height_emu: u32,
    },
}

/// An element to insert, anchored after (or `before`) an existing id.
pub struct InsertElement {
    pub element: DocElement,
    pub anchor_id: Option<String>,
    pub position: Option<String>,
}

/// The id of an element.
pub open spec fn elem_id(e: DocElement) -> Seq<char> {
    e@.id()
}

/// Access to the stable id of an element.
pub trait ElementId {
    spec fn spec_id(&self) -> Seq<char>;

    fn id(&self) -> (r: &str)
        ensures
            r@ == self.spec_id(),
    ;
}

impl ElementId for DocElement {
    open spec fn spec_id(&self) -> Seq<char> {
        elem_id(*self)
    }

    fn id(&self) -> (r: &str) {
        match self {
            DocElement::Paragraph { id, .. } => id.as_str(),
            DocElement::Table { id, .. } => id.as_str(),
            DocElement::Image { id, .. } => id.as_str(),
        }
    }
}

/// Model of a field code.
pub enum FieldRefV {
    Page,
    NumPages,
    SectionPages,
    Section,
    Date { format: Option<Seq<char>> },
    Time { format: Option<Seq<char>> },
    Author,
    Title,
    Filename { with_ext: bool },
    Custom { instr: Seq<char> },
}

impl DeepView for FieldRef {
    type V = FieldRefV;

    open spec fn deep_view(&self) -> FieldRefV {
        match self {
            FieldRef::Page => FieldRefV::Page,
            FieldRef::NumPages => FieldRefV::NumPages,
            FieldRef::SectionPages => FieldRefV::SectionPages,
            FieldRef::Section => FieldRefV::Section,
            FieldRef::Date { format } => FieldRefV::Date { format: format.deep_view() },
            FieldRef::Time { format } => FieldRefV::Time { format: format.deep_view() },
            FieldRef::Author => FieldRefV::Author,
            FieldRef::Title => FieldRefV::Title,
            FieldRef::Filename { with_ext } => FieldRefV::Filename { with_ext: *with_ext },
            FieldRef::Custom { instr } => FieldRefV::Custom { instr: instr@ },
        }
    }
}

impl View for FieldRef {
    type V = FieldRefV;

    open spec fn view(&self) -> FieldRefV {
        self.deep_view()
    }
}

impl Clone for FieldRef {
    fn clone(&self) -> (r: Self)
        ensures
            r@ == self@,
    {
        match self {
            FieldRef::Page => FieldRef::Page,
            FieldRef::NumPages => FieldRef::NumPages,
            FieldRef::SectionPages => FieldRef::SectionPages,
            FieldRef::Section => FieldRef::Section,
            FieldRef::Date { format } => FieldRef::Date { format: format.clone() },
            FieldRef::Time { format } => FieldRef::Time { format: format.clone() },
            FieldRef::Author => FieldRef::Author,
            FieldRef::Title => FieldRef::Title,
            FieldRef::Filename { with_ext } => FieldRef::Filename { with_ext: *with_ext },
            FieldRef::Custom { instr } => FieldRef::Custom { instr: instr.clone() },
        }
    }
}

/// Model of a `FontRun`.
pub struct FontRunV {
    pub text: Seq<char>,
    pub bold: bool,
    pub italic: bool,
    pub underline: bool,
    pub strikethrough: bool,
    pub font_size: Option<u32>,
    pub color: Option<Seq<char>>,
    pub font_name: Option<Seq<char>>,
    pub highlight: Option<Seq<char>>,
    pub vert_align: Option<Seq<char>>,
    pub field: Option<FieldRefV>,
    pub page_break: bool,
    pub column_break: bool,
}

impl DeepView for FontRun {
    type V = FontRunV;

    open spec fn deep_view(&self) -> FontRunV {
        FontRunV {
            text: self.text@,
            bold: self.bold,
            italic: self.italic,
            underline: self.underline,
            strikethrough: self.strikethrough,
            font_size: self.font_size,
            color: self.color.deep_view(),
            font_name: self.font_name.deep_view(),
            highlight: self.highlight.deep_view(),
            vert_align: self.vert_align.deep_view(),
            field: self.field.deep_view(),
            page_break: self.page_break,
            column_break: self.column_break,
        }
    }
}

impl View for FontRun {
    type V = FontRunV;

    open spec fn view(&self) -> FontRunV {
        self.deep_view()
    }
}

impl Clone for FontRun {
    fn clone(&self) -> (r: Self)
        ensures
            r@ == self@,
    {
        FontRun {
            text: self.text.clone(),
            bold: self.bold,
            italic: self.italic,
            underline: self.underline,
            strikethrough: self.strikethrough,
            font_size: self.font_size,
            color: self.color.clone(),
            font_name: self.font_name.clone(),
            highlight: self.highlight.clone(),
            vert_align: self.vert_align.clone(),
            field: self.field.clone(),
            page_break: self.page_break,
            column_break: self.column_break,
        }
    }
}

/// Model of a `NumberingRef`.
pub struct NumberingRefV {
    pub num_id: u32,
    pub level: u32,
}

impl DeepView for NumberingRef {
    type V = NumberingRefV;

    open spec fn deep_view(&self) -> NumberingRefV {
        NumberingRefV {
            num_id: self.num_id,
            level: self.level,
        }
    }
}

impl View for NumberingRef {
    type V = NumberingRefV;

    open spec fn view(&self) -> NumberingRefV {
        self.deep_view()
    }
}

impl Clone for NumberingRef {
    fn clone(&self) -> (r: Self)
        ensures
            r@ == self@,
    {
        NumberingRef {
            num_id: self.num_id,
            level: self.level,
        }
    }
}

/// Model of a `WordParagraph`.
pub struct WordParagraphV {
    pub id: Seq<char>,
    pub text: Seq<char>,
    pub style: Option<Seq<char>>,
    pub runs: Option<Seq<FontRunV>>,
    pub numbering: Option<NumberingRefV>,
    pub alignment: Option<Seq<char>>,
    pub text_direction: Option<Seq<char>>,
    pub page_break: Option<bool>,
}

impl DeepView for WordParagraph {
    type V = WordParagraphV;

    open spec fn deep_view(&self) -> WordParagraphV {
        WordParagraphV {
            id: self.id@,
            text: self.text@,
            style: self.style.deep_view(),
            runs: self.runs.deep_view(),
            numbering: self.numbering.deep_view(),
            alignment: self.alignment.deep_view(),
            text_direction: self.text_direction.deep_view(),
            page_break: self.page_break,
        }
    }
}

impl View for WordParagraph {
    type V = WordParagraphV;

    open spec fn view(&self) -> WordParagraphV {
        self.deep_view()
    }
}

impl Clone for WordParagraph {
    fn clone(&self) -> (r: Self)
        ensures
            r@ == self@,
    {
        let r = WordParagraph {
            id: self.id.clone(),
            text: self.text.clone(),
            style: self.style.clone(),
            runs: self.runs.clone(),
            numbering: self.numbering.clone(),
            alignment: self.alignment.clone(),
            text_direction: self.text_direction.clone(),
            page_break: self.page_break,
        };
        assert(r.runs.deep_view() =~= self.runs.deep_view());
        r
    }
}

/// Model of a `TableCell`.
pub struct TableCellV {
    pub text: Seq<char>,
    pub col_span: usize,
    pub row_span: usize,
}

impl DeepView for TableCell {
    type V = TableCellV;

    open spec fn deep_view(&self) -> TableCellV {
        TableCellV {
            text: self.text@,
            col_span: self.col_span,
            row_span: self.row_span,
        }
    }
}

impl View for TableCell {
    type V = TableCellV;

    open spec fn view(&self) -> TableCellV {
        self.deep_view()
    }
}

impl Clone for TableCell {
    fn clone(&self) -> (r: Self)
        ensures
            r@ == self@,
    {
        TableCell {
            text: self.text.clone(),
            col_span: self.col_span,
            row_span: self.row_span,
        }
    }
}

/// Model of a `TableRow`.
pub struct TableRowV {
    pub cells: Seq<TableCellV>,
}

impl DeepView for TableRow {
    type V = TableRowV;

    open spec fn deep_view(&self) -> TableRowV {
        TableRowV {
            cells: self.cells.deep_view(),
        }
    }
}

impl View for TableRow {
    type V = TableRowV;

    open spec fn view(&self) -> TableRowV {
        self.deep_view()
    }
}

impl Clone for TableRow {
    fn clone(&self) -> (r: Self)
        ensures
            r@ == self@,
    {
        let r = TableRow {
            cells: self.cells.clone(),
        };
        assert(r.cells.deep_view() =~= self.cells.deep_view());
        r
    }
}

/// Model of a `WordTable`.
pub struct WordTableV {
    pub id: Seq<char>,
    pub rows: Seq<TableRowV>,
    pub cell_paragraphs: Seq<WordParagraphV>,
}

impl DeepView for WordTable {
    type V = WordTableV;

    open spec fn deep_view(&self) -> WordTableV {
        WordTableV {
            id: self.id@,
            rows: self.rows.deep_view(),
            cell_paragraphs: self.cell_paragraphs.deep_view(),
        }
    }
}

impl View for WordTable {
    type V = WordTableV;

    open spec fn view(&self) -> WordTableV {
        self.deep_view()
    }
}

impl Clone for WordTable {
    fn clone(&self) -> (r: Self)
        ensures
            r@ == self@,
    {
        let r = WordTable {
            id: self.id.clone(),
            rows: self.rows.clone(),
            cell_paragraphs: self.cell_paragraphs.clone(),
        };
        assert(r.rows.deep_view() =~= self.rows.deep_view());
        assert(r.cell_paragraphs.deep_view() =~= self.cell_paragraphs.deep_view());
        r
    }
}

/// Model of a `WordImage`.
pub struct WordImageV {
    pub id: Seq<char>,
    pub path: Seq<char>,
    pub width_emu: u32,
    pub height_emu: u32,
    pub internal_path: Option<Seq<char>>,
}

impl DeepView for WordImage {
    type V = WordImageV;

    open spec fn deep_view(&self) -> WordImageV {
        WordImageV {
            id: self.id@,
            path: self.path@,
            width_emu: self.width_emu,
            height_emu: self.height_emu,
            internal_path: self.internal_path.deep_view(),
        }
    }
}

impl View for WordImage {
    type V = WordImageV;

    open spec fn view(&self) -> WordImageV {
        self.deep_view()
    }
}

impl Clone for WordImage {
    fn clone(&self) -> (r: Self)
        ensures
            r@ == self@,
    {
        WordImage {
            id: self.id.clone(),
            path: self.path.clone(),
            width_emu: self.width_emu,
            height_emu: self.height_emu,
            internal_path: self.internal_path.clone(),
        }
    }
}

/// Model of a `PageSize`.
pub struct PageSizeV {
    pub width: u32,
    pub height: u32,
    pub orient: Option<Seq<char>>,
}

impl DeepView for PageSize {
    type V = PageSizeV;

    open spec fn deep_view(&self) -> PageSizeV {
        PageSizeV {
            width: self.width,
            height: self.height,
            orient: self.orient.deep_view(),
        }
    }
}

impl View for PageSize {
    type V = PageSizeV;

    open spec fn view(&self) -> PageSizeV {
        self.deep_view()
    }
}

impl Clone for PageSize {
    fn clone(&self) -> (r: Self)
        ensures
            r@ == self@,
    {
        PageSize {
            width: self.width,
            height: self.height,
            orient: self.orient.clone(),
        }
    }
}

/// Model of a `PageMargins`.
pub struct PageMarginsV {
    pub top: u32,
    pub right: u32,
    pub bottom: u32,
    pub left: u32,
    pub header: Option<u32>,
    pub footer: Option<u32>,
    pub gutter: Option<u32>,
}

impl DeepView for PageMargins {
    type V = PageMarginsV;

    open spec fn deep_view(&self) -> PageMarginsV {
        PageMarginsV {
            top: self.top,
            right: self.right,
            bottom: self.bottom,
            left: self.left,
            header: self.header,
            footer: self.footer,
            gutter: self.gutter,
        }
    }
}

impl View for PageMargins {
    type V = PageMarginsV;

    open spec fn view(&self) -> PageMarginsV {
        self.deep_view()
    }
}

impl Clone for PageMargins {
    fn clone(&self) -> (r: Self)
        ensures
            r@ == self@,
    {
        PageMargins {
            top: self.top,
            right: self.right,
            bottom: self.bottom,
            left: self.left,
            header: self.header,
            footer: self.footer,
            gutter: self.gutter,
        }
    }
}

/// Model of a `HeaderPartRef`.
pub struct HeaderPartRefV {
    pub header_id: Seq<char>,
    pub kind: Option<Seq<char>>,
}

impl DeepView for HeaderPartRef {
    type V = HeaderPartRefV;

    open spec fn deep_view(&self) -> HeaderPartRefV {
        HeaderPartRefV {
            header_id: self.header_id@,
            kind: self.kind.deep_view(),
        }
    }
}

impl View for HeaderPartRef {
    type V = HeaderPartRefV;

    open spec fn view(&self) -> HeaderPartRefV {
        self.deep_view()
    }
}

impl Clone for HeaderPartRef {
    fn clone(&self) -> (r: Self)
        ensures
            r@ == self@,
    {
        HeaderPartRef {
            header_id: self.header_id.clone(),
            kind: self.kind.clone(),
        }
    }
}

/// Model of a `FooterPartRef`.
pub struct FooterPartRefV {
    pub footer_id: Seq<char>,
    pub kind: Option<Seq<char>>,
}

impl DeepView for FooterPartRef {
    type V = FooterPartRefV;

    open spec fn deep_view(&self) -> FooterPartRefV {
        FooterPartRefV {
            footer_id: self.footer_id@,
            kind: self.kind.deep_view(),
        }
    }
}

impl View for FooterPartRef {
    type V = FooterPartRefV;

    open spec fn view(&self) -> FooterPartRefV {
        self.deep_view()
    }
}

impl Clone for FooterPartRef {
    fn clone(&self) -> (r: Self)
        ensures
            r@ == self@,
    {
        FooterPartRef {
            footer_id: self.footer_id.clone(),
            kind: self.kind.clone(),
        }
    }
}

/// Model of a `HeaderPart`.
pub struct HeaderPartV {
    pub id: Seq<char>,
    pub paragraphs: Seq<WordParagraphV>,
    pub tables: Seq<WordTableV>,
    pub images: Seq<WordImageV>,
}

impl DeepView for HeaderPart {
    type V = HeaderPartV;

    open spec fn deep_view(&self) -> HeaderPartV {
        HeaderPartV {
            id: self.id@,
            paragraphs: self.paragraphs.deep_view(),
            tables: self.tables.deep_view(),
            images: self.images.deep_view(),
        }
    }
}

impl View for HeaderPart {
    type V = HeaderPartV;

    open spec fn view(&self) -> HeaderPartV {
        self.deep_view()
    }
}

impl Clone for HeaderPart {
    fn clone(&self) -> (r: Self)
        ensures
            r@ == self@,
    {
        let r = HeaderPart {
            id: self.id.clone(),
            paragraphs: self.paragraphs.clone(),
            tables: self.tables.clone(),
            images: self.images.clone(),
        };
        assert(r.paragraphs.deep_view() =~= self.paragraphs.deep_view());
        assert(r.tables.deep_view() =~= self.tables.deep_view());
        assert(r.images.deep_view() =~= self.images.deep_view());
        r
    }
}

/// Model of a `FooterPart`.
pub struct FooterPartV {
    pub id: Seq<char>,
    pub paragraphs: Seq<WordParagraphV>,
    pub tables: Seq<WordTableV>,
    pub images: Seq<WordImageV>,
}

impl DeepView for FooterPart {
    type V = FooterPartV;

    open spec fn deep_view(&self) -> FooterPartV {
        FooterPartV {
            id: self.id@,
            paragraphs: self.paragraphs.deep_view(),
            tables: self.tables.deep_view(),
            images: self.images.deep_view(),
        }
    }
}

impl View for FooterPart {
    type V = FooterPartV;

    open spec fn view(&self) -> FooterPartV {
        self.deep_view()
    }
}

impl Clone for FooterPart {
    fn clone(&self) -> (r: Self)
        ensures
            r@ == self@,
    {
        let r = FooterPart {
            id: self.id.clone(),
            paragraphs: self.paragraphs.clone(),
            tables: self.tables.clone(),
            images: self.images.clone(),
        };
        assert(r.paragraphs.deep_view() =~= self.paragraphs.deep_view());
        assert(r.tables.deep_view() =~= self.tables.deep_view());
        assert(r.images.deep_view() =~= self.images.deep_view());
        r
    }
}

/// Model of a `WordSection`.
pub struct WordSectionV {
    pub id: Seq<char>,
    pub section_type: Option<Seq<char>>,
    pub page_size_twips: Option<PageSizeV>,
    pub margins: Option<PageMarginsV>,
    pub text_direction: Option<Seq<char>>,
    pub title_pg: bool,
    pub cols: Option<u32>,
    pub page_num_start: Option<u32>,
    pub page_num_format: Option<Seq<char>>,
    pub header_refs: Seq<HeaderPartRefV>,
    pub footer_refs: Seq<FooterPartRefV>,
}

impl DeepView for WordSection {
    type V = WordSectionV;

    open spec fn deep_view(&self) -> WordSectionV {
        WordSectionV {
            id: self.id@,
            section_type: self.section_type.deep_view(),
            page_size_twips: self.page_size_twips.deep_view(),
            margins: self.margins.deep_view(),
            text_direction: self.text_direction.deep_view(),
            title_pg: self.title_pg,
            cols: self.cols,
            page_num_start: self.page_num_start,
            page_num_format: self.page_num_format.deep_view(),
            header_refs: self.header_refs.deep_view(),
            footer_refs: self.footer_refs.deep_view(),
        }
    }
}

impl View for WordSection {
    type V = WordSectionV;

    open spec fn view(&self) -> WordSectionV {
        self.deep_view()
    }
}

impl Clone for WordSection {
    fn clone(&self) -> (r: Self)
        ensures
            r@ == self@,
    {
        let r = WordSection {
            id: self.id.clone(),
            section_type: self.section_type.clone(),
            page_size_twips: self.page_size_twips.clone(),
            margins: self.margins.clone(),
            text_direction: self.text_direction.clone(),
            title_pg: self.title_pg,
            cols: self.cols,
            page_num_start: self.page_num_start,
            page_num_format: self.page_num_format.clone(),
            header_refs: self.header_refs.clone(),
            footer_refs: self.footer_refs.clone(),
        };
        assert(r.header_refs.deep_view() =~= self.header_refs.deep_view());
        assert(r.footer_refs.deep_view() =~= self.footer_refs.deep_view());
        r
    }
}

/// Model of a `WordDocument`.
pub struct WordDocumentV {
    pub paragraphs: Seq<WordParagraphV>,
    pub tables: Seq<WordTableV>,
    pub images: Seq<WordImageV>,
    pub sections: Seq<WordSectionV>,
    pub headers: Seq<HeaderPartV>,
    pub footers: Seq<FooterPartV>,
}

impl DeepView for WordDocument {
    type V = WordDocumentV;

    open spec fn deep_view(&self) -> WordDocumentV {
        WordDocumentV {
            paragraphs: self.paragraphs.deep_view(),
            tables: self.tables.deep_view(),
            images: self.images.deep_view(),
            sections: self.sections.deep_view(),
            headers: self.headers.deep_view(),
            footers: self.footers.deep_view(),
        }
    }
}

impl View for WordDocument {
    type V = WordDocumentV;

    open spec fn view(&self) -> WordDocumentV {
        self.deep_view()
    }
}

impl Clone for WordDocument {
    fn clone(&self) -> (r: Self)
        ensures
            r@ == self@,
    {
        let r = WordDocument {
            paragraphs: self.paragraphs.clone(),
            tables: self.tables.clone(),
            images: self.images.clone(),
            sections: self.sections.clone(),
            headers: self.headers.clone(),
            footers: self.footers.clone(),
        };
        assert(r.paragraphs.deep_view() =~= self.paragraphs.deep_view());
        assert(r.tables.deep_view() =~= self.tables.deep_view());
        assert(r.images.deep_view() =~= self.images.deep_view());
        assert(r.sections.deep_view() =~= self.sections.deep_view());
        assert(r.headers.deep_view() =~= self.headers.deep_view());
        assert(r.footers.deep_view() =~= self.footers.deep_view());
        r
    }
}

/// Model of a document element.
pub enum DocElementV {
    Paragraph {
        id: Seq<char>,
        text: Seq<char>,
        omit_text: bool,
        style: Option<Seq<char>>,
        runs: Option<Seq<FontRunV>>,
        numbering: Option<NumberingRefV>,
        alignment: Option<Seq<char>>,
        text_direction: Option<Seq<char>>,
    },
    Table { id: Seq<char>, position: usize, header: Seq<TableCellV>, rows: Seq<Seq<TableCellV>> },
    Image { id: Seq<char>, position: usize, path: Seq<char>, width_emu: u32, height_emu: u32 },
}

impl DocElementV {
    /// The element's id.
    pub open spec fn id(self) -> Seq<char> {
        match self {
            DocElementV::Paragraph { id, .. } => id,
            DocElementV::Table { id, .. } => id,
            DocElementV::Image { id, .. } => id,
        }
    }
}

impl DeepView for DocElement {
    type V = DocElementV;

    open spec fn deep_view(&self) -> DocElementV {
        match self {
            DocElement::Paragraph {
                id,
                text,
                omit_text,
                style,
                runs,
                numbering,
                alignment,
                text_direction,
            } => DocElementV::Paragraph {
                id: id@,
                text: text@,
                omit_text: *omit_text,
                style: style.deep_view(),
                runs: runs.deep_view(),
                numbering: numbering.deep_view(),
                alignment: alignment.deep_view(),
                text_direction: text_direction.deep_view(),
            },
            DocElement::Table { id, position, header, rows } => DocElementV::Table {
                id: id@,
                position: *position,
                header: header.deep_view(),
                rows: rows.deep_view(),
            },
            DocElement::Image { id, position, path, width_emu, height_emu } => DocElementV::Image {
                id: id@,
                position: *position,
                path: path@,
                width_emu: *width_emu,
                height_emu: *height_emu,
            },
        }
    }
}

impl View for DocElement {
    type V = DocElementV;

    open spec fn view(&self) -> DocElementV {
        self.deep_view()
    }
}

impl Clone for DocElement {
    fn clone(&self) -> (r: Self)
        ensures
            r@ == self@,
    {
        match self {
            DocElement::Paragraph {
                id,
                text,
                omit_text,
                style,
                runs,
                numbering,
                alignment,
                text_direction,
            } => {
                let r = DocElement::Paragraph {
                    id: id.clone(),
                    text: text.clone(),
                    omit_text: *omit_text,
                    style: style.clone(),
                    runs: runs.clone(),
                    numbering: numbering.clone(),
                    alignment: alignment.clone(),
                    text_direction: text_direction.clone(),
                };
                proof {
                    if let DocElement::Paragraph { runs: r2, .. } = &r {
                        assert(r2.deep_view() =~= runs.deep_view());
                    }
                }
                r
            },
            DocElement::Table { id, position, header, rows } => {
                let h = header.clone();
                let rs = rows.clone();
                assert(h.deep_view() =~= header.deep_view());
                assert(rs.deep_view() =~= rows.deep_view());
                DocElement::Table { id: id.clone(), position: *position, header: h, rows: rs }
            },
            DocElement::Image { id, position, path, width_emu, height_emu } => DocElement::Image {
                id: id.clone(),
                position: *position,
                path: path.clone(),
                width_emu: *width_emu,
                height_emu: *height_emu,
            },
        }
    }
}

/// A4 portrait, the page size of a section that gives none.
pub open spec fn default_page_size_v() -> PageSizeV {
    PageSizeV { width: 11906, height: 16838, orient: Some("portrait"@) }
}

/// One-inch margins with half-inch header / footer distance and no gutter,
/// the margins of a section that gives none.
pub open spec fn default_margins_v() -> PageMarginsV {
    PageMarginsV {
        top: 1440,
        right: 1440,
        bottom: 1440,
        left: 1440,
        header: Some(720),
        footer: Some(720),
        gutter: Some(0),
    }
}

/// A4 portrait page size.
pub fn default_page_size() -> (r: PageSize)
    ensures
        r@ == default_page_size_v(),
{
    PageSize { width: 11906, height: 16838, orient: Some(String::from_str("portrait")) }
}

/// One-inch page margins.
pub fn default_margins() -> (r: PageMargins)
    ensures
        r@ == default_margins_v(),
{
    PageMargins {
        top: 1440,
        right: 1440,
        bottom: 1440,
        left: 1440,
        header: Some(720),
        footer: Some(720),
        gutter: Some(0),
    }
}


/// The section of a document that gives none: A4 portrait, one-inch
/// margins, horizontal text, one column, decimal page numbers.
pub open spec fn default_section_v() -> WordSectionV {
    WordSectionV {
        id: "section-default"@,
        section_type: None,
        page_size_twips: Some(default_page_size_v()),
        margins: Some(default_margins_v()),
        text_direction: Some("horizontal"@),
        title_pg: false,
        cols: Some(1),
        page_num_start: None,
        page_num_format: Some("decimal"@),
        header_refs: Seq::empty(),
        footer_refs: Seq::empty(),
    }
}

impl Default for WordSection {
    fn default() -> (r: Self)
        ensures
            r@ == default_section_v(),
    {
        let r = WordSection {
            id: String::from_str("section-default"),
            section_type: None,
            page_size_twips: Some(default_page_size()),
            margins: Some(default_margins()),
            text_direction: Some(String::from_str("horizontal")),
            title_pg: false,
            cols: Some(1),
            page_num_start: None,
            page_num_format: Some(String::from_str("decimal")),
            header_refs: Vec::new(),
            footer_refs: Vec::new(),
        };
        assert(r.header_refs.deep_view() =~= Seq::<HeaderPartRefV>::empty());
        assert(r.footer_refs.deep_view() =~= Seq::<FooterPartRefV>::empty());
        r
    }
}

/// A paragraph with no id, text, style, runs, numbering or layout.
pub open spec fn empty_paragraph_v() -> WordParagraphV {
    WordParagraphV {
        id: Seq::empty(),
        text: Seq::empty(),
        style: None,
        runs: None,
        numbering: None,
        alignment: None,
        text_direction: None,
        page_break: None,
    }
}

impl Default for WordParagraph {
    fn default() -> (r: Self)
        ensures
            r@ == empty_paragraph_v(),
    {
        let r = WordParagraph {
            id: String::new(),
            text: String::new(),
            style: None,
            runs: None,
            numbering: None,
            alignment: None,
            text_direction: None,
            page_break: None,
        };
        assert(r.id@ =~= Seq::<char>::empty());
        assert(r.text@ =~= Seq::<char>::empty());
        r
    }
}

/// A document with nothing in it.
pub open spec fn empty_document_v() -> WordDocumentV {
    WordDocumentV {
        paragraphs: Seq::empty(),
        tables: Seq::empty(),
        images: Seq::empty(),
        sections: Seq::empty(),
        headers: Seq::empty(),
        footers: Seq::empty(),
    }
}

impl Default for WordDocument {
    fn default() -> (r: Self)
        ensures
            r@ == empty_document_v(),
    {
        let r = WordDocument {
            paragraphs: Vec::new(),
            tables: Vec::new(),
            images: Vec::new(),
            sections: Vec::new(),
            headers: Vec::new(),
            footers: Vec::new(),
        };
        assert(r@.paragraphs =~= Seq::<WordParagraphV>::empty());
        assert(r@.tables =~= Seq::<WordTableV>::empty());
        assert(r@.images =~= Seq::<WordImageV>::empty());
        assert(r@.sections =~= Seq::<WordSectionV>::empty());
        assert(r@.headers =~= Seq::<HeaderPartV>::empty());
        assert(r@.footers =~= Seq::<FooterPartV>::empty());
        r
    }
}


/// Model of an `InsertElement`.
pub struct InsertElementV {
    pub element: DocElementV,
    pub anchor_id: Option<Seq<char>>,
    pub position: Option<Seq<char>>,
}

impl DeepView for InsertElement {
    type V = InsertElementV;

    open spec fn deep_view(&self) -> InsertElementV {
        InsertElementV {
            element: self.element@,
            anchor_id: self.anchor_id.deep_view(),
            position: self.position.deep_view(),
        }
    }
}

impl View for InsertElement {
    type V = InsertElementV;

    open spec fn view(&self) -> InsertElementV {
        self.deep_view()
    }
}

impl Clone for InsertElement {
    fn clone(&self) -> (r: Self)
        ensures
            r@ == self@,
    {
        InsertElement {
            element: self.element.clone(),
            anchor_id: self.anchor_id.clone(),
            position: self.position.clone(),
        }
    }
}

} // verus!
