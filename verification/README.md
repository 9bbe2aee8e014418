# weiback_rs

The verified core of a tool that backs up the favorites and posts of a Weibo
account and exports them as HTML pages.

- `src/` is the library, written in Verus: every function there carries a
  contract that Verus proves. It covers reading the web API's JSON, the SQL
  that stores posts and users, the HTML a post text becomes, the pictures a
  post shows, the login protocol's answers, creation times, the upgrade of
  old databases, and the plans, progress and decisions of the task runner.
- `tests/` runs the library on concrete values.
- `app/` is a small command-line program around the library: it reads a file
  of posts as JSON, brings mobile posts to the desktop form and prints the
  rows the library makes of them.

The network, the database, the GUI and the file system stay outside the
library; the library decides, and the program carries out.
