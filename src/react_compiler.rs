use vstd::prelude::*;
use vstd::string::*;
use crate::ast::{strings_view, ASTNode};

verus! {

/// Errors of the React backend.
#[derive(Debug)]
pub enum CompilerError {
    UnsupportedNode(String),
    InternalError(String),
}

/// A backend that produces a React application shell.
pub struct ReactCompiler {
    pub imports: Vec<String>,
    pub output_code: String,
}

/// Each line followed by a line break.
pub open spec fn lines_text(lines: Seq<Seq<char>>) -> Seq<char>
    decreases lines.len(),
{
    if lines.len() == 0 {
        Seq::empty()
    } else {
        lines_text(lines.subrange(0, lines.len() - 1)) + lines[lines.len() - 1] + "\n"@
    }
}

/// The application component that follows the imports.
pub open spec fn app_text() -> Seq<char> {
    "\n// This is a placeholder React compiler implementation\n"@ + "function App() {\n"@
        + "  const [data, setData] = useState(null);\n\n"@ + "  useEffect(() => {\n"@
        + "    // Initialize data\n"@ + "    setData({ ready: true });\n"@ + "  }, []);\n\n"@
        + "  return (\n"@ + "    <div className=\"App\">\n"@
        + "      <header className=\"App-header\">\n"@ + "        <h1>GaiaScript React App</h1>\n"@
        + "        {data?.ready && <p>App is ready!</p>}\n"@ + "      </header>\n"@ + "    </div>\n"@
        + "  );\n"@ + "}\n\n"@ + "export default App;\n"@
}

impl ReactCompiler {
    /// A backend importing React's hooks and the application stylesheet.
    pub fn new() -> (r: ReactCompiler)
        ensures
            strings_view(r.imports@) == seq![
                "import React, { useState, useEffect } from 'react';"@,
                "import './App.css';"@,
            ],
            r.output_code@ == Seq::<char>::empty(),
    {
        let imports = vec![
            String::from_str("import React, { useState, useEffect } from 'react';"),
            String::from_str("import './App.css';"),
        ];
        assert(strings_view(imports@) =~= seq![
            "import React, { useState, useEffect } from 'react';"@,
            "import './App.css';"@,
        ]);
        ReactCompiler { imports, output_code: String::new() }
    }

    /// The application module: the imports, one per line, then the application component.
    pub fn compile(&mut self, ast: &ASTNode) -> (r: Result<String, String>)
        ensures
            r is Ok,
            r->Ok_0@ == lines_text(strings_view(old(self).imports@)) + app_text(),
            final(self).imports@ == old(self).imports@,
            final(self).output_code@ == old(self).output_code@,
    {
        let mut output = String::new();
        let ghost v = strings_view(self.imports@);
        let mut i: usize = 0;
        while i < self.imports.len()
            invariant
                i <= self.imports.len(),
                v == strings_view(self.imports@),
                output@ == lines_text(v.subrange(0, i as int)),
            decreases self.imports.len() - i,
        {
            output.append(self.imports[i].as_str());
            output.append("\n");
            proof {
                let next = v.subrange(0, i + 1);
                assert(next.subrange(0, i as int) == v.subrange(0, i as int));
                assert(v[i as int] == self.imports@[i as int]@);
                assert(output@ =~= lines_text(next));
            }
            i = i + 1;
        }
        assert(v.subrange(0, self.imports.len() as int) == v);
        let ghost head = output@;
        output.append("\n// This is a placeholder React compiler implementation\n");
        output.append("function App() {\n");
        output.append("  const [data, setData] = useState(null);\n\n");
        output.append("  useEffect(() => {\n");
        output.append("    // Initialize data\n");
        output.append("    setData({ ready: true });\n");
        output.append("  }, []);\n\n");
        output.append("  return (\n");
        output.append("    <div className=\"App\">\n");
        output.append("      <header className=\"App-header\">\n");
        output.append("        <h1>GaiaScript React App</h1>\n");
        output.append("        {data?.ready && <p>App is ready!</p>}\n");
        output.append("      </header>\n");
        output.append("    </div>\n");
        output.append("  );\n");
        output.append("}\n\n");
        output.append("export default App;\n");
        assert(output@ =~= head + app_text());
        Result::Ok(output)
    }

    /// Writes no files: scaffolding a project around the module is left to
    /// the caller's tooling. Always succeeds.
    pub fn generate_project(&self, app_name: &str, output_dir: &str) -> (r: Result<(), String>)
        ensures
            r is Ok,
    {
        Result::Ok(())
    }
}

} // verus!
