# hidden_char_cleaner

Removes invisible Unicode formatting and control characters from pasted
text, counts what it removed, previews the changes and exports the result as
plain text or as a Word document.

- `src/` is the verified library:
  - `unicode.rs` classifies characters (explicit invisible code points,
    variation selectors, allowed controls, dash replacements, the Cf and Cc
    general categories) and names NFC normalization;
  - `clean.rs` holds the cleaning rules, the cleaned text and its counts,
    and the laws about them (idempotence, counts, what is kept);
  - `fmt.rs` writes decimal numbers and code point labels;
  - `i18n.rs` holds the two interface languages, locale detection, the
    translated texts and the status messages;
  - `docx.rs` builds the WordprocessingML document, `package.rs` the ZIP
    package around it (its entries marked as made on Unix on every target,
    so the same text gives the same bytes everywhere);
  - `cleaner.rs` holds the window's state and its decisions: when to clean
    again, the status line, the marked preview;
  - `text.rs` specifies `String::push`.
- `app/` is the egui window, the clipboard, the save dialog, file output and
  the browser.
- `tests/` runs the library on concrete inputs.
