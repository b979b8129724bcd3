# j1

The verified core of J1, a minimal Windows web browser made of two WebView2
views: a navigation bar across the top and the page below it.

- `src/` is the library, proved with Verus:
  - `json_text`: escaping text for a JSON string literal, with the law that
    reading the result as JSON gives the text back (in `json_read`);
  - `json_read`: reading JSON string literals (the form in which the page
    view hands over what the navigation bar posts) and the objects that the
    status update writes, with the laws that what is written reads back;
  - `wide`: the NUL-terminated UTF-16 strings the platform takes;
  - `layout`: where the two views stand in the client area;
  - `message`: reading the commands that the navigation bar posts;
  - `browser`: the browser's state and what it does on each event;
  - `window`: what the window procedure does with a message.
- `app/main.rs` creates the window and the views and performs the platform
  calls that the library decides on.
- `tests/` exercises the library on concrete values.
