# parselab

Looking at what vision-language models extract from PDF documents: a PDF on the
left, what has been extracted from it on the right.

- `src/` is the library. Its functions have contracts that Verus proves. The
  exceptions are the few that call a function of another crate or of `std` that
  Verus cannot read: their contracts are taken for granted.
  - `ir*`, `ids`, `stamp`, `number`: documents and what they are made of
  - `kdl_*`: documents as KDL text, and that what is written is read back
  - `openai`, `ad_hoc`, `modal`, `pass2`, `toc`, `discovery`, `error`, `mock`:
    what is asked of the models, and what their answers mean
  - `raster`: cutting regions out of rendered pages
  - `inspector*`, `component`, `kinds`: the pane with the extractions
  - `pdf*`, `page_set`: the pane with the pages
  - `workspace`: what ties the panes together
  - `text`, `json`, `sorted`: what the rest is built on
- `app/` is the program around it: the window, the network, rendering, and
  everything that computes with floating-point numbers.
- `tests/` holds the tests of the library.

Numbers such as coordinates travel through the library as decimal text. What
is taken for granted of another crate stands above the function that calls it.
