# Glint

Glint is a photo viewer and lightweight editor. This crate holds the parts of it that
decide things, written in Verus and proved against their contracts:

- `browser`: the folder being browsed, its images sorted by name, size, date, resolution or
  color profile, navigation, recent
  folders and bookmarks;
- `sorting`: which files count as images, and the filter applied to file lists;
- `cache`: the least-recently-used cache of decoded images and its memory budget (on top of
  the `lru` crate);
- `imaging`: the loaded image, decoding from bytes, formats, and the image operations
  (through the `image` crate);
- `metadata`: the EXIF fields of an image file, read from its bytes (through `kamadak-exif`);
- `thumbnail`: thumbnails made from image bytes, and stored ones decoded back;
- `editor`: the editing session, resize and export settings, and where an export is written;
- `gallery`: the gallery's selection (click, Ctrl, Shift, select all), drag-to-reorder and
  context menu;
- `controls`: keyboard shortcuts, drag and drop, titles, and becoming the default viewer;
- `platform`: platform names, the registry commands of the Windows integration as plans
  that run step by step, and the parsing of `ver` output;
- `renderer`, `ui`, `messages`: render settings, themes and icons, application messages;
- `text`: text and path helpers shared by the modules.

`app/` is the program around the library: the egui window, file and registry I/O, the
thumbnail database, the decimal EXIF values, and the drawing code that works in floating
point.

`tests/` runs the library on concrete values.
