# loot-mcp

A read-only [MCP](https://modelcontextprotocol.io/) server over
[libloot](https://github.com/loot/libloot): it reports the current and the suggested load order,
LOOT's general messages and the evaluated metadata of single plugins.

- `src/` is the library, verified with Verus: how requests are completed from the environment,
  where LOOT's data and a game's plugins are looked for, how the files of a profile are read, when
  a prepared game is used again, and what the answers say. Each function states what it returns;
  the proof functions named `law_…` state what holds of several of them together.
- `app/` is the server: it talks MCP over stdio, reads files and the environment, drives libloot,
  and writes the answers as JSON.
- `tests/` runs the library on concrete values.

What libloot and the file system say enters the library as arguments, so its contracts hold
whatever they say.
